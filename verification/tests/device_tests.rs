use smart_house::devices::DeviceInfoProvider;
use smart_house::devices::DeviceTypes;
use smart_house::devices::DeviceTypes::{Fridge, Lamp, Thermo, TV};
use smart_house::devices::RoomTypes;
use smart_house::devices::RoomTypes::{Kitchen, Living};
use smart_house::devices::{BorrowingDeviceInfoProvider, OwningDeviceInfoProvider};
use smart_house::devices::{SmartSocket, SmartThermometer};

#[test]
fn test_smart_socket_tv() {
    let socket = SmartSocket {};
    assert_eq!(
        socket.get_device_status(&RoomTypes::Living, &TV),
        Some("State: On".to_string())
    );
}

#[test]
fn test_smart_socket_lamp() {
    let socket = SmartSocket {};
    assert_eq!(
        socket.get_device_status(&RoomTypes::Living, &Lamp),
        Some("Luminosity: 70%".to_string())
    );
}

#[test]
fn test_smart_socket_fridge() {
    let socket = SmartSocket {};
    assert_eq!(
        socket.get_device_status(&RoomTypes::Living, &Fridge),
        Some("220w".to_string())
    );
}

#[test]
fn test_smart_thermometer_thermo() {
    let thermo = SmartThermometer {};
    assert_eq!(
        thermo.get_device_status(&RoomTypes::Living, &Thermo),
        Some("Temp: 20C".to_string())
    );
}

#[test]
fn test_smart_thermometer_unknown() {
    let thermo = SmartThermometer {};
    assert_eq!(thermo.get_device_status(&RoomTypes::Living, &DeviceTypes::TV), None);
}

#[test]
fn test_owning_provider_tv() {
    let socket = SmartSocket {};
    let provider = OwningDeviceInfoProvider { socket };
    assert_eq!(provider.get_device_status(&Living, &TV), Some("State: On".to_string()));
}

#[test]
fn test_borrowing_provider_thermo() {
    let socket = SmartSocket {};
    let thermo = SmartThermometer {};
    let provider = BorrowingDeviceInfoProvider { socket: &socket, thermo: &thermo };
    assert_eq!(provider.get_device_status(&Kitchen, &Thermo), Some("Temp: 20C".to_string()));
}

#[test]
fn test_socket_room_independent() {
    let socket = SmartSocket {};
    for device in [TV, Lamp, Fridge, Thermo] {
        assert_eq!(
            socket.get_device_status(&Living, &device),
            socket.get_device_status(&Kitchen, &device)
        );
    }
}

#[test]
fn test_socket_unknown_kind() {
    let socket = SmartSocket {};
    assert_eq!(socket.get_device_status(&Living, &Thermo), None);
    assert_eq!(socket.get_device_status(&Kitchen, &Thermo), None);
}

#[test]
fn test_providers_agree_without_thermometer() {
    let owned_socket = SmartSocket {};
    let owning = OwningDeviceInfoProvider { socket: owned_socket };
    let socket = SmartSocket {};
    let thermo = SmartThermometer {};
    let borrowing = BorrowingDeviceInfoProvider { socket: &socket, thermo: &thermo };
    for room in [Living, Kitchen] {
        for device in [TV, Lamp, Fridge] {
            assert_eq!(
                owning.get_device_status(&room, &device),
                borrowing.get_device_status(&room, &device)
            );
        }
    }
}

#[test]
fn test_owning_provider_thermo_is_unanswered() {
    let socket = SmartSocket {};
    let provider = OwningDeviceInfoProvider { socket };
    assert_eq!(provider.get_device_status(&Living, &Thermo), None);
    assert_eq!(provider.get_device_status(&Kitchen, &Thermo), None);
}

#[test]
fn test_device_labels() {
    assert_eq!(TV.label(), "TV");
    assert_eq!(Lamp.label(), "Lamp");
    assert_eq!(Fridge.label(), "Fridge");
    assert_eq!(Thermo.label(), "Thermo");
}

#[test]
fn test_room_labels() {
    assert_eq!(Living.label(), "Living");
    assert_eq!(Kitchen.label(), "Kitchen");
}

#[test]
fn test_room_from_name() {
    assert_eq!(RoomTypes::from_name("Living"), Some(Living));
    assert_eq!(RoomTypes::from_name("Kitchen"), Some(Kitchen));
    assert_eq!(RoomTypes::from_name("Pantry"), None);
    assert_eq!(RoomTypes::from_name(""), None);
}
