//! The entities of a home: structures, rooms, devices, users, and the
//! permissions that grant a user access to a structure.
//!
//! Identifiers are UUIDs, held as their 128-bit big-endian value.

use vstd::prelude::*;

use crate::text::{bool_text, bool_to_str, uuid_text, uuid_to_string};

verus! {

/// A UUID, as its 128-bit big-endian value.
pub type ID = u128;

/// Identifies a structure.
pub type StructureID = u128;

/// Identifies a room.
pub type RoomID = u128;

/// Identifies a device.
pub type DeviceID = u128;

/// Identifies a user.
pub type UserID = u128;

/// A building (a house, a flat) that holds rooms.
#[derive(Debug, PartialEq, Eq)]
pub struct Structure {
    pub id: StructureID,
    pub name: String,
}

/// A room of a structure.
#[derive(Debug, PartialEq, Eq)]
pub struct Room {
    pub id: RoomID,
    pub structure_id: StructureID,
    pub name: String,
}

/// A person who may use the devices of the structures they hold a
/// permission for.
#[derive(Debug, PartialEq, Eq)]
pub struct User {
    pub id: UserID,
    pub username: String,
    pub email: String,
    pub admin: bool,
}

/// Grants a user access to one structure.
#[derive(Debug, Clone, Copy, PartialEq, Eq, Structural)]
pub struct Permission {
    pub structure_id: StructureID,
    pub user_id: UserID,
    pub is_manager: bool,
}

/// What a device is.
#[derive(Debug, Clone, Copy, PartialEq, Eq, Structural)]
pub enum DeviceType {
    Light,
    Garage,
}

/// A capability that a device offers.
#[derive(Debug, Clone, Copy, PartialEq, Eq, Structural)]
pub enum DeviceTrait {
    OnOff,
    OpenClose,
}

/// A semantic version: major, minor and patch number.
#[derive(Debug, Clone, Copy, PartialEq, Eq, Structural)]
pub struct Version {
    pub major: u64,
    pub minor: u64,
    pub patch: u64,
}

impl Version {
    /// The version `major.minor.patch`.
    pub fn new(major: u64, minor: u64, patch: u64) -> (v: Version)
        ensures
            v == (Version { major, minor, patch }),
    {
        Version { major, minor, patch }
    }
}

/// A device placed in a room.
#[derive(Debug, PartialEq, Eq)]
pub struct Device {
    pub id: DeviceID,
    pub room_id: RoomID,
    pub password_hash: Option<String>,
    pub device_type: DeviceType,
    pub traits: Vec<DeviceTrait>,
    pub name: String,
    pub will_push_state: bool,
    pub model: String,
    pub hw_version: Version,
    pub sw_version: Version,
    /// Further properties of the device: each a name and its value.
    pub attributes: Vec<(String, String)>,
}

impl Device {
    /// `self` and `other` hold the same values: every field is equal, the
    /// lists of traits and of attributes by their contents.
    pub open spec fn same_as(self, other: Device) -> bool {
        &&& self.id == other.id
        &&& self.room_id == other.room_id
        &&& self.password_hash == other.password_hash
        &&& self.device_type == other.device_type
        &&& self.traits@ == other.traits@
        &&& self.name == other.name
        &&& self.will_push_state == other.will_push_state
        &&& self.model == other.model
        &&& self.hw_version == other.hw_version
        &&& self.sw_version == other.sw_version
        &&& self.attributes@ == other.attributes@
    }
}

impl Clone for Device {
    fn clone(&self) -> (res: Self)
        ensures
            res.same_as(*self),
    {
        let password_hash = match &self.password_hash {
            Some(h) => Some(h.clone()),
            None => None,
        };
        let mut traits: Vec<DeviceTrait> = Vec::new();
        for i in 0..self.traits.len()
            invariant
                traits@ == self.traits@.take(i as int),
        {
            traits.push(self.traits[i]);
            assert(self.traits@.take(i + 1) == self.traits@.take(i as int).push(self.traits@[i as int]));
        }
        assert(self.traits@.take(self.traits.len() as int) == self.traits@);
        let mut attributes: Vec<(String, String)> = Vec::new();
        for i in 0..self.attributes.len()
            invariant
                attributes@ == self.attributes@.take(i as int),
        {
            let (name, value) = &self.attributes[i];
            attributes.push((name.clone(), value.clone()));
            assert(self.attributes@.take(i + 1) == self.attributes@.take(i as int).push(
                self.attributes@[i as int],
            ));
        }
        assert(self.attributes@.take(self.attributes.len() as int) == self.attributes@);
        Device {
            id: self.id,
            room_id: self.room_id,
            password_hash,
            device_type: self.device_type,
            traits,
            name: self.name.clone(),
            will_push_state: self.will_push_state,
            model: self.model.clone(),
            hw_version: self.hw_version,
            sw_version: self.sw_version,
            attributes,
        }
    }
}

impl Permission {
    /// The text that `{:?}` writes for a permission.
    pub open spec fn debug_text(self) -> Seq<char> {
        "Permission { structure_id: "@ + uuid_text(self.structure_id) + ", user_id: "@ + uuid_text(
            self.user_id,
        ) + ", is_manager: "@ + bool_text(self.is_manager) + " }"@
    }

    /// Writes the permission as `{:?}` does.
    pub fn to_debug_string(&self) -> (s: String)
        ensures
            s@ == self.debug_text(),
    {
        let mut s = "Permission { structure_id: ".to_owned();
        s.append(uuid_to_string(self.structure_id).as_str());
        s.append(", user_id: ");
        s.append(uuid_to_string(self.user_id).as_str());
        s.append(", is_manager: ");
        s.append(bool_to_str(self.is_manager));
        s.append(" }");
        s
    }
}

impl Clone for Structure {
    fn clone(&self) -> (res: Self)
        ensures
            res == *self,
    {
        Structure { id: self.id, name: self.name.clone() }
    }
}

impl Clone for Room {
    fn clone(&self) -> (res: Self)
        ensures
            res == *self,
    {
        Room { id: self.id, structure_id: self.structure_id, name: self.name.clone() }
    }
}

impl Clone for User {
    fn clone(&self) -> (res: Self)
        ensures
            res == *self,
    {
        User {
            id: self.id,
            username: self.username.clone(),
            email: self.email.clone(),
            admin: self.admin,
        }
    }
}

} // verus!
