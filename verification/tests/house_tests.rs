use smart_house::devices::DeviceTypes;
use smart_house::devices::DeviceTypes::{Fridge, Lamp, Thermo, TV};
use smart_house::house::{Room, SmartHouse};

#[test]
fn test_add_room() {
    let mut house = SmartHouse { name: "".to_string(), rooms: vec![] };
    house.add_room("Living Room");
    assert_eq!(house.rooms.len(), 1);
    assert_eq!(house.rooms[0].name, "Living Room");
}

#[test]
fn test_add_room_twice() {
    let mut house = SmartHouse { name: "".to_string(), rooms: vec![] };
    house.add_room("Living Room");
    house.add_room("Living Room");
    assert_eq!(house.rooms.len(), 1);
}

#[test]
fn test_remove_room() {
    let mut house = SmartHouse {
        name: "".to_string(),
        rooms: vec![Room { name: "Living Room".to_string(), devices: vec![] }],
    };
    house.remove_room("Living Room");
    assert!(house.rooms.is_empty());
}

#[test]
fn test_add_device() {
    let mut house = SmartHouse {
        name: "".to_string(),
        rooms: vec![Room { name: "Living Room".to_string(), devices: vec![] }],
    };
    house.add_device("Living Room", DeviceTypes::TV);
    assert_eq!(house.rooms[0].devices.len(), 1);
    assert_eq!(house.rooms[0].devices[0], DeviceTypes::TV);
}

#[test]
fn test_remove_device() {
    let mut house = SmartHouse {
        name: "".to_string(),
        rooms: vec![Room { name: "Living Room".to_string(), devices: vec![DeviceTypes::TV] }],
    };
    house.remove_device("Living Room", DeviceTypes::TV);
    assert!(house.rooms[0].devices.is_empty());
}

#[test]
fn test_house_creation() {
    let house = SmartHouse::new("My Smart House");
    assert_eq!(house.name, "My Smart House");
}

#[test]
fn test_get_rooms() {
    let house = SmartHouse::new("My Smart House");
    let rooms = house.get_rooms();
    assert_eq!(rooms, vec!["Living", "Kitchen"]);
}

#[test]
fn test_devices_in_living_room() {
    let house = SmartHouse::new("My Smart House");
    let devices = house.devices("Living");
    assert_eq!(devices, Some(vec![TV, Lamp, Thermo]));
}

#[test]
fn test_devices_in_kitchen() {
    let house = SmartHouse::new("My Smart House");
    let devices = house.devices("Kitchen");
    assert_eq!(devices, Some(vec![Lamp, Thermo, Fridge]));
}

#[test]
fn test_devices_unknown_room() {
    let house = SmartHouse::new("My Smart House");
    assert_eq!(house.devices("Garage"), None);
}

#[test]
fn test_devices_of_empty_room_is_some() {
    let mut house = SmartHouse::new("My Smart House");
    house.add_room("Attic");
    assert_eq!(house.devices("Attic"), Some(vec![]));
}

#[test]
fn test_add_room_twice_leaves_one() {
    let mut house = SmartHouse::new("H");
    house.add_room("Spa");
    house.add_room("Spa");
    let spa_count = house.get_rooms().iter().filter(|n| **n == "Spa").count();
    assert_eq!(spa_count, 1);
    assert_eq!(house.get_rooms(), vec!["Living", "Kitchen", "Spa"]);
}

#[test]
fn test_remove_absent_room_is_noop() {
    let mut house = SmartHouse::new("H");
    let before = house
        .get_rooms()
        .iter()
        .map(|n| n.to_string())
        .collect::<Vec<_>>();
    house.remove_room("Cellar");
    let after = house
        .get_rooms()
        .iter()
        .map(|n| n.to_string())
        .collect::<Vec<_>>();
    assert_eq!(before, after);
    assert_eq!(house.devices("Living"), Some(vec![TV, Lamp, Thermo]));
}

#[test]
fn test_add_then_remove_device_roundtrip() {
    let mut house = SmartHouse::new("H");
    let before = house.devices("Kitchen");
    house.add_device("Kitchen", TV);
    assert_eq!(house.devices("Kitchen"), Some(vec![Lamp, Thermo, Fridge, TV]));
    house.remove_device("Kitchen", TV);
    assert_eq!(house.devices("Kitchen"), before);
}

#[test]
fn test_add_device_keeps_order_and_duplicates() {
    let mut house = SmartHouse { name: "H".to_string(), rooms: vec![] };
    house.add_room("Studio");
    house.add_device("Studio", Lamp);
    house.add_device("Studio", TV);
    house.add_device("Studio", Lamp);
    assert_eq!(house.devices("Studio"), Some(vec![Lamp, TV, Lamp]));
}

#[test]
fn test_remove_device_removes_all_occurrences() {
    let mut house = SmartHouse { name: "H".to_string(), rooms: vec![] };
    house.add_room("Studio");
    house.add_device("Studio", Lamp);
    house.add_device("Studio", TV);
    house.add_device("Studio", Lamp);
    house.remove_device("Studio", Lamp);
    assert_eq!(house.devices("Studio"), Some(vec![TV]));
}

#[test]
fn test_add_device_unknown_room_is_noop() {
    let mut house = SmartHouse::new("H");
    house.add_device("Garage", TV);
    assert_eq!(house.devices("Garage"), None);
    assert_eq!(house.get_rooms(), vec!["Living", "Kitchen"]);
    assert_eq!(house.devices("Living"), Some(vec![TV, Lamp, Thermo]));
    assert_eq!(house.devices("Kitchen"), Some(vec![Lamp, Thermo, Fridge]));
}

#[test]
fn test_room_order_follows_insertion() {
    let mut house = SmartHouse { name: "H".to_string(), rooms: vec![] };
    house.add_room("One");
    house.add_room("Two");
    house.add_room("Three");
    assert_eq!(house.get_rooms(), vec!["One", "Two", "Three"]);
    house.remove_room("Two");
    assert_eq!(house.get_rooms(), vec!["One", "Three"]);
}
