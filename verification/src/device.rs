//! The two device kinds and their shared identity snapshot.
//!
//! A device is a closed choice between a switchable outlet and a temperature
//! sensor. Both carry an immutable name and description; the outlet holds the
//! endpoint it queries, the sensor caches the last reading pushed to it. The
//! network exchanges themselves happen outside this crate: the outlet's
//! request framing and answer decoding, and the sensor's datagram ingestion,
//! are the verified halves of those protocols.

use crate::protocol::be_u32_of;
use crate::protocol::decode_be_u32;
use vstd::prelude::*;

verus! {

/// A read-only snapshot of a device's identity: name, description and the
/// tag of its kind.
pub struct DeviceInfo {
    pub name: String,
    pub description: String,
    pub device_type: String,
}

/// The error an outlet exchange surfaces when its transport fails. The
/// registry never produces it; it travels from the code that performs the
/// exchange back to the caller.
#[derive(Debug)]
pub struct DeviceError {
    pub message: String,
}

impl DeviceError {
    pub fn new(message: String) -> (r: Self)
        ensures
            r.message == message,
    {
        DeviceError { message }
    }
}

/// A switchable power outlet. Its on/off state is authoritative on the
/// remote endpoint and is re-queried on every call, so the outlet itself
/// holds only its identity and the endpoint address.
pub struct SocketDevice {
    pub name: String,
    pub description: String,
    pub address: String,
}

impl SocketDevice {
    /// Builds an outlet bound to the well-known endpoint address.
    pub fn new(name: &str, description: &str) -> (r: Self)
        ensures
            r.name@ == name@,
            r.description@ == description@,
            r.address@ == "127.0.0.1:9555"@,
    {
        SocketDevice {
            name: name.to_owned(),
            description: description.to_owned(),
            address: "127.0.0.1:9555".to_owned(),
        }
    }

    /// The identity snapshot of this outlet.
    pub fn get_info(&self) -> (r: DeviceInfo)
        ensures
            r.name@ == self.name@,
            r.description@ == self.description@,
            r.device_type@ == "SocketDevice"@,
    {
        DeviceInfo {
            name: self.name.clone(),
            description: self.description.clone(),
            device_type: "SocketDevice".to_owned(),
        }
    }
}

/// A temperature sensor. A background listener outside this crate receives
/// four-byte datagrams and hands each one to `ingest_datagram`; the sensor
/// caches the 32-bit pattern of the last reading, zero until one arrives.
pub struct ThermometerDevice {
    pub name: String,
    pub description: String,
    pub device_addr: String,
    pub value_bits: u32,
}

impl ThermometerDevice {
    /// Builds a sensor. The cached reading starts at the zero bit pattern;
    /// an empty `addr` means no listener will ever feed it, so it reports
    /// that default for good.
    pub fn new(name: &str, description: &str, addr: &str) -> (r: Self)
        ensures
            r.name@ == name@,
            r.description@ == description@,
            r.device_addr@ == addr@,
            r.value_bits == 0,
    {
        ThermometerDevice {
            name: name.to_owned(),
            description: description.to_owned(),
            device_addr: addr.to_owned(),
            value_bits: 0,
        }
    }

    /// The 32-bit pattern of the last reading received, zero if none yet.
    /// Never blocks and never fails.
    pub fn get_value_bits(&self) -> (r: u32)
        ensures
            r == self.value_bits,
    {
        self.value_bits
    }

    /// Takes one four-byte datagram and overwrites the cached reading with
    /// the big-endian value it carries. Identity and endpoint stay as they
    /// were; a later datagram overwrites an earlier one without ordering
    /// checks, last writer wins.
    pub fn ingest_datagram(&mut self, buf: &[u8])
        requires
            buf@.len() == 4,
        ensures
            final(self).value_bits == be_u32_of(buf@),
            final(self).name == old(self).name,
            final(self).description == old(self).description,
            final(self).device_addr == old(self).device_addr,
    {
        self.value_bits = decode_be_u32(buf);
    }

    /// The identity snapshot of this sensor.
    pub fn get_info(&self) -> (r: DeviceInfo)
        ensures
            r.name@ == self.name@,
            r.description@ == self.description@,
            r.device_type@ == "ThermometerDevice"@,
    {
        DeviceInfo {
            name: self.name.clone(),
            description: self.description.clone(),
            device_type: "ThermometerDevice".to_owned(),
        }
    }
}

/// A device is exactly one of the known kinds.
pub enum Device {
    Socket(SocketDevice),
    Thermometer(ThermometerDevice),
}

impl Device {
    /// The device's name, its identity within a room.
    pub open spec fn name_spec(self) -> Seq<char> {
        match self {
            Device::Socket(d) => d.name@,
            Device::Thermometer(d) => d.name@,
        }
    }

    /// The device's description.
    pub open spec fn description_spec(self) -> Seq<char> {
        match self {
            Device::Socket(d) => d.description@,
            Device::Thermometer(d) => d.description@,
        }
    }

    /// The tag naming the device's kind.
    pub open spec fn type_spec(self) -> Seq<char> {
        match self {
            Device::Socket(_) => "SocketDevice"@,
            Device::Thermometer(_) => "ThermometerDevice"@,
        }
    }

    /// The device's name.
    pub fn name(&self) -> (r: &String)
        ensures
            r@ == self.name_spec(),
    {
        match self {
            Device::Socket(d) => &d.name,
            Device::Thermometer(d) => &d.name,
        }
    }

    /// The tag of this device's kind, as a string.
    pub fn get_type(&self) -> (r: String)
        ensures
            r@ == self.type_spec(),
    {
        match self {
            Device::Socket(_) => "SocketDevice".to_owned(),
            Device::Thermometer(_) => "ThermometerDevice".to_owned(),
        }
    }

    /// The identity snapshot of this device.
    pub fn get_info(&self) -> (r: DeviceInfo)
        ensures
            r.name@ == self.name_spec(),
            r.description@ == self.description_spec(),
            r.device_type@ == self.type_spec(),
    {
        match self {
            Device::Socket(d) => d.get_info(),
            Device::Thermometer(d) => d.get_info(),
        }
    }
}

} // verus!
