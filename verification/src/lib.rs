//! A verified model of a small smart home: a named home holds rooms, each room
//! holds a fixed number of device slots, and two kinds of network devices (a
//! switchable outlet and a temperature sensor) speak fixed wire formats whose
//! encoding and decoding are verified here. All network transport lives
//! outside this crate; the registry and the codecs are pure logic.

pub mod device;
pub mod home;
pub mod protocol;
pub mod room;
