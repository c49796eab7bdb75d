use smarthome::{Device, DeviceError, Home, HomeError, Room, SmartDevice, SmartSocket,
    SmartThermometer};

fn create_device() -> SmartSocket {
    SmartSocket::new("test_device".into())
}

fn create_home() -> Home {
    Home::new("test_home".into())
}

fn create_room() -> Room {
    Room::new("test_room".into())
}

#[test]
fn home_add_room() {
    let mut home = create_home();
    let room = create_room();
    assert_eq!(home.add_room(room), "New room added");
}

#[test]
fn remove_existing_device() {
    let mut room = create_room();
    let device = Device::Socket(create_device());
    room.add_device(device);
    match room.remove_device("test_device") {
        Ok(_) => (),
        Err(e) => panic!("Error: {}", e.message()),
    }
}

#[test]
fn remove_nonexisting_device() {
    let mut room = create_room();
    let device = Device::Socket(create_device());
    room.add_device(device);
    if room.remove_device("non-existent_device").is_ok() {
        panic!("Can't remove non-existent device!!!")
    }
}

fn init_room(name: String) -> Room {
    Room::new(name)
}

fn init_home() -> Home {
    Home::new("home".to_string())
}

#[test]
fn test_add_room() {
    let mut home = init_home();
    let room = init_room("room".into());
    assert_eq!(home.add_room(room), "New room added");
}

#[test]
fn add_room_then_get_room_finds_it_unchanged() {
    let mut home = init_home();
    let mut room = init_room("kitchen".into());
    room.add_device(Device::Thermometer(SmartThermometer::new("t1".to_string())));
    home.add_room(room);
    let found = home.get_room("kitchen").unwrap();
    let device = found.get_device("t1").unwrap();
    assert_eq!(device.name(), "t1");
    assert!(found.get_device("other").is_none());
}

#[test]
fn replacing_room_reports_update() {
    let mut home = init_home();
    assert_eq!(home.add_room(init_room("kitchen".into())), "New room added");
    assert_eq!(
        home.add_room(init_room("kitchen".into())),
        "Existed room was updated: kitchen"
    );
}

#[test]
fn removing_room_twice_fails_second_time() {
    let mut home = init_home();
    home.add_room(init_room("kitchen".into()));
    assert!(home.remove_room("kitchen").is_ok());
    assert!(matches!(
        home.remove_room("kitchen"),
        Err(HomeError::NoRoomInHome { .. })
    ));
}

#[test]
fn add_device_to_missing_room_changes_nothing() {
    let mut home = init_home();
    home.add_room(init_room("kitchen".into()));
    let result = home.add_device("garage", Device::Socket(SmartSocket::new("s1".to_string())));
    // The error names the missing room and hands the device back unchanged.
    match result {
        Err((HomeError::NoRoomInHome { room }, rejected)) => {
            assert_eq!(room, "garage");
            assert_eq!(rejected.name(), "s1");
        }
        _ => panic!("adding to a missing room must fail with NoRoomInHome"),
    }
    // The room set is untouched: "garage" is still absent and "kitchen" still there.
    assert!(matches!(
        home.get_room("garage"),
        Err(HomeError::NoRoomInHome { .. })
    ));
    assert!(home.get_room("kitchen").is_ok());
}

#[test]
fn add_device_returns_inserted_device() {
    let mut home = init_home();
    home.add_room(init_room("kitchen".into()));
    let inserted = home
        .add_device("kitchen", Device::Socket(SmartSocket::new("s1".to_string())))
        .unwrap();
    assert_eq!(inserted.name(), "s1");
}

#[test]
fn same_name_insert_keeps_only_latest() {
    let mut room = init_room("kitchen".into());
    room.add_device(Device::Socket(SmartSocket::new("x".to_string())));
    room.add_device(Device::Thermometer(SmartThermometer::new("x".to_string())));
    // The latest device survives: "x" is now the thermometer.
    let survivor = room.remove_device("x").unwrap();
    assert_eq!(survivor.return_state().unwrap(), "temperature: 25");
    // And it was the only one stored under that name.
    assert!(matches!(
        room.remove_device("x"),
        Err(HomeError::NoDeviceInRoom { .. })
    ));
}

#[test]
fn removing_missing_device_leaves_room_unchanged() {
    let mut room = init_room("kitchen".into());
    room.add_device(Device::Socket(SmartSocket::new("s1".to_string())));
    assert!(matches!(
        room.remove_device("never_added"),
        Err(HomeError::NoDeviceInRoom { .. })
    ));
    // The one stored device is still there.
    assert!(room.remove_device("s1").is_ok());
}

#[test]
fn home_remove_device_error_paths() {
    let mut home = init_home();
    home.add_room(init_room("kitchen".into()));
    assert!(matches!(
        home.remove_device("garage", "s1"),
        Err(HomeError::NoRoomInHome { .. })
    ));
    assert!(matches!(
        home.remove_device("kitchen", "s1"),
        Err(HomeError::NoDeviceInRoom { .. })
    ));
    home.add_device("kitchen", Device::Socket(SmartSocket::new("s1".to_string())))
        .unwrap();
    let removed = home.remove_device("kitchen", "s1").unwrap();
    assert_eq!(removed.name(), "s1");
}

#[test]
fn report_of_all_on_devices_is_exact() {
    let mut home = init_home();
    home.add_room(init_room("first".into()));
    let mut socket1 = SmartSocket::new("socket1".to_string());
    socket1.switch_on();
    home.add_device("first", Device::Socket(socket1)).unwrap();
    home.add_device(
        "first",
        Device::Thermometer(SmartThermometer::new("t1".to_string())),
    )
    .unwrap();
    assert_eq!(
        home.write_report().unwrap(),
        "\n---------Home Report--------\n\
         Room first info\n\
         >> Socket name is: socket1\n\
         >>>> Socket power is '220'\n\
         >> Thermometer name is: t1\n\
         >>>> Temperature is: 25\n"
    );
}

#[test]
fn report_with_off_socket_fails_strictly() {
    // End to end: two rooms, three devices on, one socket left off.
    let mut home = Home::new("home".to_string());
    home.add_room(Room::new("first".to_string()));
    home.add_room(Room::new("second".to_string()));

    let mut socket1 = SmartSocket::new("socket1".to_string());
    let mut socket2 = SmartSocket::new("socket2".to_string());
    let socket3 = SmartSocket::new("socket3".to_string());
    let thermometer1 = SmartThermometer::new("t1".to_string());

    socket1.switch_on();
    socket2.switch_on();

    home.add_device("first", Device::Socket(socket1)).unwrap();
    home.add_device("first", Device::Socket(socket2)).unwrap();
    home.add_device("first", Device::Thermometer(thermometer1))
        .unwrap();
    home.add_device("second", Device::Socket(socket3)).unwrap();

    // The report policy is strict: the off socket3 aborts the whole report,
    // and the error names it.
    match home.write_report() {
        Err(DeviceError::DeviceIsTurnedOff { device }) => assert_eq!(device, "socket3"),
        other => panic!("unexpected report outcome: {:?}", other),
    }
}

#[test]
fn report_of_empty_home_is_banner_only() {
    let home = init_home();
    assert_eq!(home.write_report().unwrap(), "\n---------Home Report--------\n");
}

#[test]
fn report_of_empty_room_is_header_only() {
    let mut home = init_home();
    home.add_room(init_room("first".into()));
    assert_eq!(
        home.write_report().unwrap(),
        "\n---------Home Report--------\nRoom first info\n"
    );
}

#[test]
fn lookup_errors_name_the_offender() {
    let mut home = init_home();
    home.add_room(init_room("kitchen".into()));
    match home.remove_room("garage") {
        Err(HomeError::NoRoomInHome { room }) => assert_eq!(room, "garage"),
        other => panic!("unexpected remove outcome: {:?}", other.is_ok()),
    }
    match home.remove_device("kitchen", "s1") {
        Err(HomeError::NoDeviceInRoom { room, device }) => {
            assert_eq!(room, "kitchen");
            assert_eq!(device, "s1");
        }
        other => panic!("unexpected remove outcome: {:?}", other.is_ok()),
    }
}

#[test]
fn switch_device_in_place() {
    let mut home = init_home();
    home.add_room(init_room("kitchen".into()));
    home.add_device("kitchen", Device::Socket(SmartSocket::new("s1".to_string())))
        .unwrap();
    home.add_device(
        "kitchen",
        Device::Thermometer(SmartThermometer::new("t1".to_string())),
    )
    .unwrap();

    // The socket is switched where it is stored, without being removed.
    assert_eq!(home.switch_device("kitchen", "s1").unwrap().unwrap(), "Off");
    let room = home.get_room("kitchen").unwrap();
    match room.get_device("s1").unwrap() {
        Device::Socket(s) => assert_eq!(s.power().unwrap(), 220),
        _ => panic!("'s1' is a socket"),
    }

    // A thermometer reports its own switch failure; lookups report theirs.
    assert!(matches!(
        home.switch_device("kitchen", "t1").unwrap(),
        Err(DeviceError::SwitchOnOffError { .. })
    ));
    assert!(matches!(
        home.switch_device("garage", "s1"),
        Err(HomeError::NoRoomInHome { .. })
    ));
    assert!(matches!(
        home.switch_device("kitchen", "s9"),
        Err(HomeError::NoDeviceInRoom { .. })
    ));
}

#[test]
fn room_switch_device_toggles_in_place() {
    let mut room = init_room("kitchen".into());
    room.add_device(Device::Socket(SmartSocket::new("s1".to_string())));
    assert_eq!(room.switch_device("s1").unwrap().unwrap(), "Off");
    assert_eq!(room.switch_device("s1").unwrap().unwrap(), "On");
    assert!(matches!(
        room.switch_device("s9"),
        Err(HomeError::NoDeviceInRoom { .. })
    ));
}

#[test]
fn home_error_messages() {
    assert_eq!(
        HomeError::NoRoomInHome {
            room: "garage".to_string()
        }
        .message(),
        "No room in home: 'garage'"
    );
    assert_eq!(
        HomeError::NoDeviceInRoom {
            room: "kitchen".to_string(),
            device: "s1".to_string()
        }
        .message(),
        "No device in room: there is no 's1' in room 'kitchen'"
    );
    assert_eq!(HomeError::CantAddRoom.message(), "Can't add room");
    assert_eq!(HomeError::CantAddDevice.message(), "Can't add device");
}
