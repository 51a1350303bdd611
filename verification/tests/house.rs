use smarthouse::DynamicSmartDevice;
use smarthouse::SmartDevice;
use smarthouse::SmartHouse;
use smarthouse::SmartHouseError;
use smarthouse::SmartSocket;
use smarthouse::SmartThermometer;

#[test]
fn test_rooms() {
    let mut house = SmartHouse::default();
    assert_eq!(house.get_rooms().len(), 0);

    let room = "chinese_room";
    house.add_room(room).unwrap();
    assert_eq!(house.get_rooms().len(), 1);
    assert_eq!(house.get_rooms()[0], room);

    house.add_room(room).unwrap_err();
    assert_eq!(house.get_rooms().len(), 1);
    assert_eq!(house.get_rooms()[0], room);

    let room2 = "kitchen";
    house.add_room(room2).unwrap();
    assert_eq!(house.get_rooms().len(), 2);
    assert!(house.get_rooms().iter().any(|e| e.as_str() == room));
    assert!(house.get_rooms().iter().any(|e| e.as_str() == room2));
}

#[test]
fn test_device() {
    let mut house = SmartHouse::default();
    let room = "chinese_room";
    let device_name = "thermo";
    house.add_room(room).unwrap();
    house
        .add_device(
            room,
            DynamicSmartDevice::Thermometer(SmartThermometer::new(device_name)),
        )
        .unwrap();
    house.get_device_info(room, device_name).unwrap();
}

#[test]
fn add_room_twice_reports_duplicate() {
    let mut house = SmartHouse::default();
    assert!(house.add_room("hall").is_ok());
    match house.add_room("hall") {
        Err(SmartHouseError::RoomAlreadyExists(n)) => assert_eq!(n, "hall"),
        other => panic!("expected RoomAlreadyExists, got {:?}", other),
    }
    assert_eq!(house.get_rooms().len(), 1);
}

#[test]
fn add_device_to_missing_room() {
    let mut house = SmartHouse::default();
    let d = DynamicSmartDevice::Socket(SmartSocket::new("plug"));
    match house.add_device("cellar", d) {
        Err(SmartHouseError::RoomNotFound(n)) => assert_eq!(n, "cellar"),
        other => panic!("expected RoomNotFound, got {:?}", other),
    }
    assert_eq!(house.get_rooms().len(), 0);
    assert!(!house.get_rooms().iter().any(|e| e.as_str() == "cellar"));
}

#[test]
fn distinct_devices_then_duplicate() {
    let mut house = SmartHouse::default();
    house.add_room("lab").unwrap();
    assert!(house
        .add_device("lab", DynamicSmartDevice::Socket(SmartSocket::new("alpha")))
        .is_ok());
    assert!(house
        .add_device(
            "lab",
            DynamicSmartDevice::Thermometer(SmartThermometer::new("beta")),
        )
        .is_ok());
    match house.add_device("lab", DynamicSmartDevice::Socket(SmartSocket::new("alpha"))) {
        Err(SmartHouseError::DeviceAlreadyExists(n)) => assert_eq!(n, "alpha"),
        other => panic!("expected DeviceAlreadyExists, got {:?}", other),
    }
    assert_eq!(house.devices("lab").unwrap().len(), 2);
}

#[test]
fn same_device_name_in_two_rooms() {
    let mut house = SmartHouse::default();
    house.add_room("kitchen").unwrap();
    house.add_room("bedroom").unwrap();
    assert!(house
        .add_device("kitchen", DynamicSmartDevice::Socket(SmartSocket::new("socket")))
        .is_ok());
    assert!(house
        .add_device("bedroom", DynamicSmartDevice::Socket(SmartSocket::new("socket")))
        .is_ok());
}

#[test]
fn empty_report_is_empty_string() {
    let house = SmartHouse::default();
    assert_eq!(house.create_full_report(), "");
}

#[test]
fn one_socket_report_exact() {
    let mut house = SmartHouse::default();
    house.add_room("kitchen").unwrap();
    house
        .add_device("kitchen", DynamicSmartDevice::Socket(SmartSocket::new("socket")))
        .unwrap();
    assert_eq!(
        house.create_full_report(),
        "Room: kitchen Devices list:\n    SmartSocket socket current: 0\n"
    );
}

#[test]
fn full_report_keeps_insertion_order() {
    let mut house = SmartHouse::default();
    house.add_room("kitchen").unwrap();
    house
        .add_device(
            "kitchen",
            DynamicSmartDevice::Thermometer(SmartThermometer::new("thermo")),
        )
        .unwrap();
    house
        .add_device("kitchen", DynamicSmartDevice::Socket(SmartSocket::new("socket")))
        .unwrap();
    house.add_room("bedroom").unwrap();
    house
        .add_device("bedroom", DynamicSmartDevice::Socket(SmartSocket::new("socket")))
        .unwrap();
    let expected = "Room: kitchen Devices list:\n    SmartThermometer thermo current: 0 temperature: 0\n    SmartSocket socket current: 0\nRoom: bedroom Devices list:\n    SmartSocket socket current: 0\n";
    assert_eq!(house.create_full_report(), expected);
}

#[test]
fn device_info_missing_device() {
    let mut house = SmartHouse::default();
    house.add_room("kitchen").unwrap();
    match house.get_device_info("kitchen", "thermo") {
        Err(SmartHouseError::DeviceNotFound(n)) => assert_eq!(n, "thermo"),
        other => panic!("expected DeviceNotFound, got {:?}", other),
    }
}

#[test]
fn device_info_missing_room() {
    let house = SmartHouse::default();
    match house.get_device_info("kitchen", "thermo") {
        Err(SmartHouseError::RoomNotFound(n)) => assert_eq!(n, "kitchen"),
        other => panic!("expected RoomNotFound, got {:?}", other),
    }
}

#[test]
fn device_info_exact_text() {
    let mut house = SmartHouse::default();
    house.add_room("kitchen").unwrap();
    house
        .add_device("kitchen", DynamicSmartDevice::Socket(SmartSocket::new("socket")))
        .unwrap();
    assert_eq!(
        house.get_device_info("kitchen", "socket").unwrap(),
        "it is report for [SmartSocket socket current: 0] in room [kitchen]"
    );
}

#[test]
fn devices_lists_room_contents() {
    let mut house = SmartHouse::default();
    house.add_room("lab").unwrap();
    house
        .add_device("lab", DynamicSmartDevice::Socket(SmartSocket::new("alpha")))
        .unwrap();
    house
        .add_device(
            "lab",
            DynamicSmartDevice::Thermometer(SmartThermometer::new("beta")),
        )
        .unwrap();
    let ds = house.devices("lab").unwrap();
    assert_eq!(ds.len(), 2);
    assert_eq!(ds[0].get_name(), "alpha");
    assert_eq!(ds[1].get_name(), "beta");
    match house.devices("attic") {
        Err(SmartHouseError::RoomNotFound(n)) => assert_eq!(n, "attic"),
        other => panic!("expected RoomNotFound, got {:?}", other),
    }
}

#[test]
fn error_messages_exact() {
    assert_eq!(
        SmartHouseError::RoomAlreadyExists("kitchen".to_string()).message(),
        "room kitchen already exists"
    );
    assert_eq!(
        SmartHouseError::RoomNotFound("kitchen".to_string()).message(),
        "room kitchen does not found"
    );
    assert_eq!(
        SmartHouseError::DeviceNotFound("thermo".to_string()).message(),
        "device thermo does not found"
    );
    assert_eq!(
        SmartHouseError::DeviceAlreadyExists("thermo".to_string()).message(),
        "device thermo already exists"
    );
}
