use smart_home::device::Device;
use smart_home::device::SocketDevice;
use smart_home::device::ThermometerDevice;
use smart_home::protocol::encode_be_u32;

#[test]
fn test_socket_device_info() {
    let socket = SocketDevice::new("розетка", "описание");
    let info = socket.get_info();
    assert_eq!(info.name, "розетка");
    assert_eq!(info.description, "описание");
    assert_eq!(info.device_type, "SocketDevice");
    assert_eq!(socket.address, "127.0.0.1:9555");
}

#[test]
fn test_thermometer_device_info() {
    let device = Device::Thermometer(ThermometerDevice::new("термометр", "с описанием", "127.0.0.1:9555"));
    let info = device.get_info();
    assert_eq!(info.name, "термометр");
    assert_eq!(info.description, "с описанием");
    assert_eq!(info.device_type, "ThermometerDevice");
    assert_eq!(device.get_type(), "ThermometerDevice");
}

// A sensor built with an empty endpoint has no feed: it keeps reporting the
// default reading (the zero bit pattern, 0.0 as a float).
#[test]
fn test_sensor_empty_endpoint_reports_default() {
    let sensor = ThermometerDevice::new("термометр", "с описанием", "");
    assert_eq!(sensor.get_value_bits(), 0);
    assert_eq!(f32::from_bits(sensor.get_value_bits()), 0.0);
    assert_eq!(f32::from_bits(sensor.get_value_bits()), 0.0);
}

// A datagram carrying 23.5 degrees as a big-endian float updates the cached
// reading to exactly 23.5 on the next read.
#[test]
fn test_sensor_ingests_datagram() {
    let mut sensor = ThermometerDevice::new("термометр", "с описанием", "127.0.0.1:9556");
    assert_eq!(f32::from_bits(sensor.get_value_bits()), 0.0);
    let datagram = 23.5f32.to_be_bytes();
    assert_eq!(datagram, [0x41, 0xBC, 0x00, 0x00]);
    sensor.ingest_datagram(&datagram);
    assert_eq!(f32::from_bits(sensor.get_value_bits()), 23.5);
}

// A later datagram overwrites an earlier one: last writer wins.
#[test]
fn test_sensor_last_datagram_wins() {
    let mut sensor = ThermometerDevice::new("термометр", "с описанием", "127.0.0.1:9556");
    sensor.ingest_datagram(&encode_be_u32(23.5f32.to_bits()));
    sensor.ingest_datagram(&encode_be_u32((-7.25f32).to_bits()));
    assert_eq!(f32::from_bits(sensor.get_value_bits()), -7.25);
    assert_eq!(sensor.name, "термометр");
    assert_eq!(sensor.device_addr, "127.0.0.1:9556");
}
