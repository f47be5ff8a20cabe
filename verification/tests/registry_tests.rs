use smart_home::device::Device;
use smart_home::device::SocketDevice;
use smart_home::home::Home;
use smart_home::home::HomeError;
use smart_home::room::Room;
use smart_home::room::RoomError;

// Adding a second room under an already-taken name fails with the duplicate
// error and leaves exactly one room present.
#[test]
fn test_duplicate_room_error_kind() {
    let mut home = Home::new("Дом".to_string());
    home.add_room(Room::new("комната", 2)).unwrap();
    let result = home.add_room(Room::new("комната", 5));
    assert_eq!(result.err(), Some(HomeError::DuplicateRoomName));
    assert_eq!(home.rooms.len(), 1);
}

// The scenario over the home: a second outlet under the same name is refused
// as a duplicate and the room still reports exactly one device.
#[test]
fn test_duplicate_device_scenario() {
    let mut home = Home::new("Дом".to_string());
    let room = home.add_room(Room::new("комната1", 2)).unwrap();
    room.add_device(Device::Socket(SocketDevice::new("розетка", "описание")))
        .unwrap();
    let result = room.add_device(Device::Socket(SocketDevice::new("розетка", "другое описание")));
    assert_eq!(result.err(), Some(RoomError::DuplicateDeviceName));
    assert_eq!(room.find_device_all().len(), 1);
    assert_eq!(room.find_device_all(), vec!["розетка".to_string()]);
}

// A room of capacity one takes a single device; the second add fails with
// the room-full error.
#[test]
fn test_room_full() {
    let mut room = Room::new("комната", 1);
    room.add_device(Device::Socket(SocketDevice::new("розетка", "описание")))
        .unwrap();
    let result = room.add_device(Device::Socket(SocketDevice::new("лампа", "описание")));
    assert_eq!(result.err(), Some(RoomError::RoomFull));
    assert_eq!(room.find_device_all().len(), 1);
}

// A room of capacity zero is always full.
#[test]
fn test_zero_capacity_room() {
    let mut room = Room::new("комната", 0);
    let result = room.add_device(Device::Socket(SocketDevice::new("розетка", "описание")));
    assert_eq!(result.err(), Some(RoomError::RoomFull));
    assert!(room.find_device_all().is_empty());
}

// Devices go into the lowest empty slot, and a vacated slot is reused: after
// the first device leaves, the next one lands in its old place.
#[test]
fn test_slot_reuse() {
    let mut room = Room::new("комната", 2);
    room.add_device(Device::Socket(SocketDevice::new("а", "описание"))).unwrap();
    room.add_device(Device::Socket(SocketDevice::new("б", "описание"))).unwrap();
    assert_eq!(room.find_device_all(), vec!["а".to_string(), "б".to_string()]);
    room.remove_device_by_name("а").unwrap();
    room.add_device(Device::Socket(SocketDevice::new("в", "описание"))).unwrap();
    assert_eq!(room.find_device_all(), vec!["в".to_string(), "б".to_string()]);
}

// Removing a device and querying its name again comes back empty; removing a
// missing device reports the not-found error.
#[test]
fn test_removed_device_not_found() {
    let mut room = Room::new("комната", 3);
    room.add_device(Device::Socket(SocketDevice::new("розетка", "описание")))
        .unwrap();
    room.remove_device_by_name("розетка").unwrap();
    assert!(room.find_device_by_name("розетка").is_none());
    let result = room.remove_device_by_name("розетка");
    assert_eq!(result.err(), Some(RoomError::DeviceNotFound));
}

// Removing a room makes every device it owned unreachable through the home.
#[test]
fn test_removed_room_devices_unreachable() {
    let mut home = Home::new("Дом".to_string());
    let room = home.add_room(Room::new("комната1", 2)).unwrap();
    room.add_device(Device::Socket(SocketDevice::new("розетка", "описание")))
        .unwrap();
    assert!(home.find_device_by_name("комната1", "розетка").is_some());
    home.remove_room_by_name("комната1").unwrap();
    assert!(home.find_device_by_name("комната1", "розетка").is_none());
    assert!(home.find_room_by_name("комната1").is_none());
}

// The home-level errors for missing rooms and missing devices.
#[test]
fn test_home_remove_device_errors() {
    let mut home = Home::new("Дом".to_string());
    let room = home.add_room(Room::new("комната1", 2)).unwrap();
    room.add_device(Device::Socket(SocketDevice::new("розетка", "описание")))
        .unwrap();
    let missing_room = home.remove_device_by_name("прихожая", "розетка");
    assert_eq!(missing_room.err(), Some(HomeError::RoomNotFound));
    let missing_device = home.remove_device_by_name("комната1", "лампа");
    assert_eq!(missing_device.err(), Some(HomeError::DeviceNotFound));
    home.remove_device_by_name("комната1", "розетка").unwrap();
    assert!(home.find_device_by_name("комната1", "розетка").is_none());
    let missing_room = home.remove_room_by_name("прихожая");
    assert_eq!(missing_room.err(), Some(HomeError::RoomNotFound));
}

// A room handed back by lookup is the stored room: devices added through the
// handle are visible through the home afterwards.
#[test]
fn test_find_room_hands_out_stored_room() {
    let mut home = Home::new("Дом".to_string());
    home.add_room(Room::new("комната1", 2)).unwrap();
    home.add_room(Room::new("комната2", 2)).unwrap();
    let room = home.find_room_by_name("комната2").unwrap();
    assert_eq!(room.name, "комната2");
    room.add_device(Device::Socket(SocketDevice::new("розетка", "описание")))
        .unwrap();
    let found = home.find_device_by_name("комната2", "розетка").unwrap();
    assert_eq!(found.get_info().device_type, "SocketDevice");
    assert!(home.find_device_by_name("комната1", "розетка").is_none());
}

// The minimal report succeeds and is the placeholder line.
#[test]
fn test_report_placeholder() {
    let home = Home::new("Дом".to_string());
    assert_eq!(home.device_report().unwrap(), "-");
}
