//! Device catalog, status sources, and the info providers that filter
//! (room, device) queries before delegating to a source.

use vstd::prelude::*;

verus! {

/// The closed set of device kinds a house can register.
#[derive(Debug, Copy, Clone, PartialEq, Eq, Structural)]
pub enum DeviceTypes {
    TV,
    Lamp,
    Fridge,
    Thermo,
}

/// The closed set of room kinds a provider recognizes.
#[derive(Debug, Copy, Clone, PartialEq, Eq, Structural)]
pub enum RoomTypes {
    Living,
    Kitchen,
}

impl DeviceTypes {
    /// The human-readable label of a device kind.
    pub open spec fn label_spec(self) -> Seq<char> {
        match self {
            DeviceTypes::TV => "TV"@,
            DeviceTypes::Lamp => "Lamp"@,
            DeviceTypes::Fridge => "Fridge"@,
            DeviceTypes::Thermo => "Thermo"@,
        }
    }

    pub fn label(&self) -> (r: &'static str)
        ensures
            r@ == self.label_spec(),
    {
        match self {
            DeviceTypes::TV => "TV",
            DeviceTypes::Lamp => "Lamp",
            DeviceTypes::Fridge => "Fridge",
            DeviceTypes::Thermo => "Thermo",
        }
    }
}

/// Compares two string slices by their character content.
pub fn str_eq(a: &str, b: &str) -> (r: bool)
    ensures
        r == (a@ == b@),
{
    let owned_a = a.to_owned();
    let owned_b = b.to_owned();
    owned_a == owned_b
}

impl RoomTypes {
    /// The human-readable label of a room kind.
    pub open spec fn label_spec(self) -> Seq<char> {
        match self {
            RoomTypes::Living => "Living"@,
            RoomTypes::Kitchen => "Kitchen"@,
        }
    }

    pub fn label(&self) -> (r: &'static str)
        ensures
            r@ == self.label_spec(),
    {
        match self {
            RoomTypes::Living => "Living",
            RoomTypes::Kitchen => "Kitchen",
        }
    }

    /// The room kind a given room name resolves to, if any.
    pub open spec fn of_name(name: Seq<char>) -> Option<RoomTypes> {
        if name == "Living"@ {
            Some(RoomTypes::Living)
        } else if name == "Kitchen"@ {
            Some(RoomTypes::Kitchen)
        } else {
            None
        }
    }

    /// Resolves a room name against the set of recognized room kinds.
    pub fn from_name(name: &str) -> (r: Option<RoomTypes>)
        ensures
            r == RoomTypes::of_name(name@),
    {
        if str_eq(name, "Living") {
            Some(RoomTypes::Living)
        } else if str_eq(name, "Kitchen") {
            Some(RoomTypes::Kitchen)
        } else {
            None
        }
    }
}

/// A component that can answer "status of device `d` in room `r`",
/// filtered by its own room/device eligibility.
pub trait DeviceInfoProvider: Sized {
    /// The answer this provider gives for a (room, device) pair.
    spec fn status_spec(&self, room: RoomTypes, device: DeviceTypes) -> Option<Seq<char>>;

    fn get_device_status(&self, room: &RoomTypes, device: &DeviceTypes) -> (r: Option<String>)
        ensures
            (match r {
                Some(s) => self.status_spec(*room, *device) == Some(s@),
                None => self.status_spec(*room, *device) is None,
            }),
    ;
}

/// The status a multi-outlet socket reports for a device kind,
/// independent of any room.
pub open spec fn socket_status(device: DeviceTypes) -> Option<Seq<char>> {
    match device {
        DeviceTypes::TV => Some("State: On"@),
        DeviceTypes::Lamp => Some("Luminosity: 70%"@),
        DeviceTypes::Fridge => Some("220w"@),
        DeviceTypes::Thermo => None,
    }
}

/// The status a thermometer reports for a device kind,
/// independent of any room.
pub open spec fn thermometer_status(device: DeviceTypes) -> Option<Seq<char>> {
    match device {
        DeviceTypes::Thermo => Some("Temp: 20C"@),
        _ => None,
    }
}

/// A multi-outlet socket: answers for TV, Lamp and Fridge.
pub struct SmartSocket {}

impl DeviceInfoProvider for SmartSocket {
    open spec fn status_spec(&self, room: RoomTypes, device: DeviceTypes) -> Option<Seq<char>> {
        socket_status(device)
    }

    fn get_device_status(&self, room: &RoomTypes, device: &DeviceTypes) -> (r: Option<String>) {
        match device {
            DeviceTypes::TV => Some("State: On".to_owned()),
            DeviceTypes::Lamp => Some("Luminosity: 70%".to_owned()),
            DeviceTypes::Fridge => Some("220w".to_owned()),
            _ => None,
        }
    }
}

/// A thermometer: answers for Thermo only.
pub struct SmartThermometer {}

impl DeviceInfoProvider for SmartThermometer {
    open spec fn status_spec(&self, room: RoomTypes, device: DeviceTypes) -> Option<Seq<char>> {
        thermometer_status(device)
    }

    fn get_device_status(&self, room: &RoomTypes, device: &DeviceTypes) -> (r: Option<String>) {
        match device {
            DeviceTypes::Thermo => Some("Temp: 20C".to_owned()),
            _ => None,
        }
    }
}

/// The answer an info provider wrapping a single socket gives: within a
/// recognized room, the socket-reachable kinds (TV, Lamp, Fridge) are
/// delegated to the socket; Thermo is not eligible through any source.
pub open spec fn owning_status(room: RoomTypes, device: DeviceTypes) -> Option<Seq<char>> {
    match device {
        DeviceTypes::TV | DeviceTypes::Lamp | DeviceTypes::Fridge => socket_status(device),
        DeviceTypes::Thermo => None,
    }
}

/// The answer an info provider wrapping a socket and a thermometer gives:
/// within a recognized room, TV, Lamp and Fridge go to the socket and
/// Thermo goes to the thermometer.
pub open spec fn borrowing_status(room: RoomTypes, device: DeviceTypes) -> Option<Seq<char>> {
    match device {
        DeviceTypes::TV | DeviceTypes::Lamp | DeviceTypes::Fridge => socket_status(device),
        DeviceTypes::Thermo => thermometer_status(device),
    }
}

/// An info provider that exclusively owns its socket source.
pub struct OwningDeviceInfoProvider {
    pub socket: SmartSocket,
}

impl DeviceInfoProvider for OwningDeviceInfoProvider {
    open spec fn status_spec(&self, room: RoomTypes, device: DeviceTypes) -> Option<Seq<char>> {
        owning_status(room, device)
    }

    fn get_device_status(&self, room: &RoomTypes, device: &DeviceTypes) -> (r: Option<String>) {
        match room {
            RoomTypes::Living => match device {
                DeviceTypes::TV | DeviceTypes::Lamp | DeviceTypes::Fridge => self
                    .socket
                    .get_device_status(room, device),
                _ => None,
            },
            RoomTypes::Kitchen => match device {
                DeviceTypes::TV | DeviceTypes::Lamp | DeviceTypes::Fridge => self
                    .socket
                    .get_device_status(room, device),
                _ => None,
            },
        }
    }
}

/// An info provider that borrows a socket source and a thermometer source
/// owned elsewhere.
pub struct BorrowingDeviceInfoProvider<'a, 'b> {
    pub socket: &'a SmartSocket,
    pub thermo: &'b SmartThermometer,
}

impl<'a, 'b> DeviceInfoProvider for BorrowingDeviceInfoProvider<'a, 'b> {
    open spec fn status_spec(&self, room: RoomTypes, device: DeviceTypes) -> Option<Seq<char>> {
        borrowing_status(room, device)
    }

    fn get_device_status(&self, room: &RoomTypes, device: &DeviceTypes) -> (r: Option<String>) {
        match room {
            RoomTypes::Living => match device {
                DeviceTypes::TV | DeviceTypes::Lamp | DeviceTypes::Fridge => self
                    .socket
                    .get_device_status(room, device),
                DeviceTypes::Thermo => self.thermo.get_device_status(room, device),
            },
            RoomTypes::Kitchen => match device {
                DeviceTypes::TV | DeviceTypes::Lamp | DeviceTypes::Fridge => self
                    .socket
                    .get_device_status(room, device),
                DeviceTypes::Thermo => self.thermo.get_device_status(room, device),
            },
        }
    }
}

/// The two provider variants agree on every (room, device) pair that does
/// not need a thermometer: ownership discipline is a resource-management
/// choice, not a behavioral one. (On Thermo they differ by construction,
/// since the owning provider wraps no thermometer.)
pub proof fn lemma_providers_agree(
    owning: &OwningDeviceInfoProvider,
    borrowing: &BorrowingDeviceInfoProvider,
    room: RoomTypes,
    device: DeviceTypes,
)
    requires
        device != DeviceTypes::Thermo,
    ensures
        owning.status_spec(room, device) == borrowing.status_spec(room, device),
{
}

/// A source's answer depends on the device kind alone: the room argument
/// is accepted for interface symmetry but never consulted.
pub proof fn lemma_source_room_independent(
    socket: &SmartSocket,
    thermo: &SmartThermometer,
    room_a: RoomTypes,
    room_b: RoomTypes,
    device: DeviceTypes,
)
    ensures
        socket.status_spec(room_a, device) == socket.status_spec(room_b, device),
        thermo.status_spec(room_a, device) == thermo.status_spec(room_b, device),
{
}

} // verus!
