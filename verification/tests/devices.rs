use smarthome::text::i32_to_string;
use smarthome::{DeviceError, SmartDevice, SmartSocket, SmartThermometer};

fn init_smart_socket() -> SmartSocket {
    SmartSocket::new("test_device".into())
}

#[test]
fn get_socket_power() {
    let mut socket = init_smart_socket();
    socket.switch_on();
    match socket.power() {
        Ok(power) => assert_eq!(power, 220),
        Err(_) => panic!("Socket is turned on"),
    }
}

#[test]
#[should_panic]
fn get_turned_off_socket_power() {
    let socket = init_smart_socket();
    match socket.power() {
        Ok(power) => assert_eq!(power, 220),
        Err(_) => panic!("Socket is turned on"),
    }
}

#[test]
fn socket_power_toggles_with_switch() {
    let mut socket = SmartSocket::new("s".to_string());
    assert!(matches!(
        socket.power(),
        Err(DeviceError::DeviceIsTurnedOff { .. })
    ));
    let label = socket.switch_device().unwrap();
    assert_eq!(label, "Off");
    assert_eq!(socket.power().unwrap(), 220);
    let label = socket.switch_device().unwrap();
    assert_eq!(label, "On");
    assert!(matches!(
        socket.power(),
        Err(DeviceError::DeviceIsTurnedOff { .. })
    ));
}

#[test]
fn thermometer_never_switches() {
    let mut t = SmartThermometer::new("t".to_string());
    match t.switch_device() {
        Err(DeviceError::SwitchOnOffError { device }) => assert_eq!(device, "t"),
        other => panic!("unexpected switch outcome: {:?}", other),
    }
    assert_eq!(t.get_temperature(), 25);
    assert!(matches!(
        t.switch_device(),
        Err(DeviceError::SwitchOnOffError { .. })
    ));
    assert_eq!(t.get_temperature(), 25);
}

#[test]
fn socket_errors_name_the_socket() {
    let socket = SmartSocket::new("s7".to_string());
    match socket.power() {
        Err(e) => {
            assert_eq!(e.device(), "s7");
            assert_eq!(e.message(), "Device is turned off: 's7'");
        }
        Ok(_) => panic!("an off socket has no power reading"),
    }
}

#[test]
fn socket_state_texts() {
    let mut socket = SmartSocket::new("socket1".to_string());
    match socket.print_state() {
        Err(DeviceError::DeviceIsTurnedOff { device }) => assert_eq!(device, "socket1"),
        other => panic!("unexpected state outcome: {:?}", other),
    }
    assert!(matches!(
        socket.return_state(),
        Err(DeviceError::DeviceIsTurnedOff { .. })
    ));
    socket.switch_on();
    assert_eq!(
        socket.print_state().unwrap(),
        ">> Socket name is: socket1\n>>>> Socket power is '220'\n"
    );
    assert_eq!(socket.return_state().unwrap(), "power: 220");
    assert_eq!(socket.name(), "socket1");
}

#[test]
fn thermometer_state_texts() {
    let t = SmartThermometer::new("t1".to_string());
    assert_eq!(
        t.print_state().unwrap(),
        ">> Thermometer name is: t1\n>>>> Temperature is: 25\n"
    );
    assert_eq!(t.return_state().unwrap(), "temperature: 25");
    assert_eq!(t.name(), "t1");
}

#[test]
fn error_messages() {
    assert_eq!(
        DeviceError::DeviceIsTurnedOff {
            device: "s1".to_string()
        }
        .message(),
        "Device is turned off: 's1'"
    );
    assert_eq!(
        DeviceError::SwitchOnOffError {
            device: "t1".to_string()
        }
        .message(),
        "Can't switch on/off this device: 't1'"
    );
}

#[test]
fn decimal_rendering() {
    assert_eq!(i32_to_string(0), "0");
    assert_eq!(i32_to_string(25), "25");
    assert_eq!(i32_to_string(220), "220");
    assert_eq!(i32_to_string(-7), "-7");
    assert_eq!(i32_to_string(i32::MAX), "2147483647");
    assert_eq!(i32_to_string(i32::MIN), "-2147483648");
}
