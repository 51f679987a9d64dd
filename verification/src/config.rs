//! The server configuration: network, secrets, TLS, e-mail, Google client,
//! and the structures, rooms, devices, users and permissions of the home,
//! with the lookups over them and the check that their references resolve.

use vstd::prelude::*;

use crate::search::{find, is_first, is_subsequence, lemma_filter_map_subsequence, lemma_find_first, lemma_find_none, lemma_find_spec, none_match, position};
use crate::text::{uuid_text, uuid_to_string};
use crate::types::{Device, DeviceID, Permission, Room, RoomID, Structure, StructureID, User, UserID};

verus! {

/// An IP address, as the integer of its octets in network order.
#[derive(Debug, Clone, Copy, PartialEq, Eq, Structural)]
pub enum IpAddress {
    V4(u32),
    V6(u128),
}

/// Network configuration.
#[derive(Debug, Clone, PartialEq, Eq)]
pub struct Network {
    /// Server address
    pub address: IpAddress,
}

/// The address the server listens on unless configured otherwise: 127.0.0.1.
pub open spec fn default_server_address() -> IpAddress {
    IpAddress::V4(0x7f00_0001)
}

impl Default for Network {
    fn default() -> (n: Self)
        ensures
            n.address == default_server_address(),
    {
        Network { address: IpAddress::V4(0x7f00_0001) }
    }
}

/// Secret data.
#[derive(Debug, Clone, PartialEq, Eq)]
pub struct Secrets {
    /// Key used to sign refresh tokens. Must be secret and should be fairly random.
    pub refresh_key: String,
    /// Key used to sign access tokens. Must be secret and should be fairly random.
    pub access_key: String,
    /// Key used to sign authorization codes. Must be secret and should be fairly random.
    pub authorization_code_key: String,
}

/// Paths to the TLS configuration.
#[derive(Debug, Clone, PartialEq, Eq)]
pub struct Tls {
    /// Path to the TLS certificate
    pub certificate: std::path::PathBuf,
    /// Path to the TLS private key
    pub private_key: std::path::PathBuf,
}

/// Configuration of the e-mail sender.
#[derive(Debug, Clone, PartialEq, Eq)]
pub enum Email {
    Smtp(Smtp),
}

/// An SMTP server to send e-mail through.
#[derive(Debug, Clone, PartialEq, Eq)]
pub struct Smtp {
    pub hostname: url::Host<String>,
    pub port: u16,
    pub from: String,
    pub username: String,
    pub password: String,
}

/// Configuration of the Google third-party client.
#[derive(Debug, Clone, PartialEq, Eq)]
pub struct Google {
    /// OAuth2 Client ID identifying Google to your service
    pub client_id: String,
    /// OAuth2 Client Secret assigned to the Client ID which identifies Google to you
    pub client_secret: String,
    /// Google Project ID
    pub project_id: String,
}

/// The whole server configuration.
#[derive(Debug, Clone, PartialEq, Eq)]
pub struct Config {
    /// Network configuration
    pub network: Network,
    /// Secret data
    pub secrets: Secrets,
    /// Path to the TLS configuration
    pub tls: Option<Tls>,
    /// Configuration of the Email
    pub email: Email,
    /// Configuration of the Google 3rd party client
    pub google: Option<Google>,
    /// Structures
    pub structures: Vec<Structure>,
    /// Rooms
    pub rooms: Vec<Room>,
    /// Devices
    pub devices: Vec<Device>,
    /// Users
    pub users: Vec<User>,
    /// User -> Structure permission
    pub permissions: Vec<Permission>,
}

/// A reference between the entities of a configuration that does not resolve.
#[derive(Debug, Clone, Copy, PartialEq, Eq, Structural)]
pub enum ConfigError {
    /// A room names a structure that is not configured.
    MissingStructureForRoom { structure_id: StructureID, room_id: RoomID },
    /// A device names a room that is not configured.
    MissingRoomForDevice { room_id: RoomID, device_id: DeviceID },
    /// A permission names a structure that is not configured.
    MissingStructureForPermission(Permission),
    /// A permission names a user who is not configured.
    MissingUserForPermission(Permission),
}

impl ConfigError {
    /// The message that reports the error.
    pub open spec fn message_text(self) -> Seq<char> {
        match self {
            ConfigError::MissingStructureForRoom { structure_id, room_id } => "Couldn't find structure with id: "@
                + uuid_text(structure_id) + " for room: "@ + uuid_text(room_id),
            ConfigError::MissingRoomForDevice { room_id, device_id } => "Couldn't find room with id: "@
                + uuid_text(room_id) + " for device: "@ + uuid_text(device_id),
            ConfigError::MissingStructureForPermission(p) => "Couldn't find structure with id: "@
                + uuid_text(p.structure_id) + " for permission: "@ + p.debug_text(),
            ConfigError::MissingUserForPermission(p) => "Couldn't find user with id: "@ + uuid_text(
                p.user_id,
            ) + " for permission: "@ + p.debug_text(),
        }
    }

    /// Writes the message that reports the error.
    pub fn message(&self) -> (m: String)
        ensures
            m@ == self.message_text(),
    {
        match self {
            ConfigError::MissingStructureForRoom { structure_id, room_id } => {
                let mut m = "Couldn't find structure with id: ".to_owned();
                m.append(uuid_to_string(*structure_id).as_str());
                m.append(" for room: ");
                m.append(uuid_to_string(*room_id).as_str());
                m
            },
            ConfigError::MissingRoomForDevice { room_id, device_id } => {
                let mut m = "Couldn't find room with id: ".to_owned();
                m.append(uuid_to_string(*room_id).as_str());
                m.append(" for device: ");
                m.append(uuid_to_string(*device_id).as_str());
                m
            },
            ConfigError::MissingStructureForPermission(p) => {
                let mut m = "Couldn't find structure with id: ".to_owned();
                m.append(uuid_to_string(p.structure_id).as_str());
                m.append(" for permission: ");
                m.append(p.to_debug_string().as_str());
                m
            },
            ConfigError::MissingUserForPermission(p) => {
                let mut m = "Couldn't find user with id: ".to_owned();
                m.append(uuid_to_string(p.user_id).as_str());
                m.append(" for permission: ");
                m.append(p.to_debug_string().as_str());
                m
            },
        }
    }
}

/// `ids` holds `id`.
fn contains_id(ids: &Vec<u128>, id: u128) -> (b: bool)
    ensures
        b == ids@.contains(id),
{
    let found = position(
        ids,
        (|x: &u128| -> (b: bool)
            ensures
                b == (*x == id),
            { *x == id }),
        Ghost(|x: u128| x == id),
    );
    proof {
        if let Some(i) = found {
            assert(ids@[i as int] == id);
        }
    }
    found.is_some()
}

/// The user has the identifier `id`.
pub open spec fn user_has_id(id: UserID) -> spec_fn(User) -> bool {
    |u: User| u.id == id
}

/// The user has the e-mail address `email`.
pub open spec fn user_has_email(email: Seq<char>) -> spec_fn(User) -> bool {
    |u: User| u.email@ == email
}

/// The device has the identifier `id`.
pub open spec fn device_has_id(id: DeviceID) -> spec_fn(Device) -> bool {
    |d: Device| d.id == id
}

/// The room has the identifier `id`.
pub open spec fn room_has_id(id: RoomID) -> spec_fn(Room) -> bool {
    |r: Room| r.id == id
}

/// The permission grants user `user_id` access to structure `structure_id`.
pub open spec fn grants(structure_id: StructureID, user_id: UserID) -> spec_fn(Permission) -> bool {
    |p: Permission| p.structure_id == structure_id && p.user_id == user_id
}

impl Config {
    /// The first device with identifier `device_id`.
    pub open spec fn device_of(self, device_id: DeviceID) -> Option<Device> {
        find(self.devices@, device_has_id(device_id))
    }

    /// The first room whose identifier is that of the room of the first
    /// device with identifier `device_id`.
    pub open spec fn room_of_device(self, device_id: DeviceID) -> Option<Room> {
        match self.device_of(device_id) {
            Some(d) => find(self.rooms@, room_has_id(d.room_id)),
            None => None,
        }
    }

    /// The first permission that grants `user_id` the structure of the room
    /// of the device `device_id`.
    pub open spec fn permission_for(self, device_id: DeviceID, user_id: UserID) -> Option<Permission> {
        match self.room_of_device(device_id) {
            Some(room) => find(self.permissions@, grants(room.structure_id, user_id)),
            None => None,
        }
    }

    /// Some permission grants user `user_id` access to structure `structure_id`.
    pub open spec fn user_permitted_in(self, user_id: UserID, structure_id: StructureID) -> bool {
        exists|k: int|
            0 <= k < self.permissions@.len() && #[trigger] grants(structure_id, user_id)(
                self.permissions@[k],
            )
    }

    /// The device stands in a room (any room with its room identifier) of a
    /// structure that user `user_id` holds a permission for.
    pub open spec fn device_visible_to(self, user_id: UserID, d: Device) -> bool {
        exists|k: int|
            0 <= k < self.rooms@.len() && #[trigger] self.rooms@[k].id == d.room_id
                && self.user_permitted_in(user_id, self.rooms@[k].structure_id)
    }

    /// The predicate of the devices that user `user_id` may use.
    pub open spec fn visible_to(self, user_id: UserID) -> spec_fn(Device) -> bool {
        |d: Device| self.device_visible_to(user_id, d)
    }

    /// The identifiers of the devices that user `user_id` may use, in the
    /// order of the configuration.
    pub open spec fn user_device_ids(self, user_id: UserID) -> Seq<DeviceID> {
        self.devices@.filter(self.visible_to(user_id)).map_values(|d: Device| d.id)
    }

    /// The structures that user `user_id` holds a permission for.
    fn permitted_structures(&self, user_id: UserID) -> (r: Vec<StructureID>)
        ensures
            forall|s: StructureID| r@.contains(s) <==> self.user_permitted_in(user_id, s),
    {
        let mut r: Vec<StructureID> = Vec::new();
        let mut i: usize = 0;
        while i < self.permissions.len()
            invariant
                i <= self.permissions@.len(),
                forall|s: StructureID|
                    r@.contains(s) <==> exists|k: int|
                        0 <= k < i && #[trigger] grants(s, user_id)(self.permissions@[k]),
            decreases self.permissions.len() - i,
        {
            let p = self.permissions[i];
            let ghost old_r = r@;
            if p.user_id == user_id {
                r.push(p.structure_id);
            }
            assert forall|s: StructureID|
                r@.contains(s) <==> exists|k: int|
                    0 <= k < i + 1 && #[trigger] grants(s, user_id)(self.permissions@[k]) by {
                if r@.contains(s) && !old_r.contains(s) {
                    assert(r@.last() == s) by {
                        let j = choose|j: int| 0 <= j < r@.len() && r@[j] == s;
                        if j < old_r.len() {
                            assert(old_r[j] == s);
                        }
                    }
                    assert(grants(s, user_id)(self.permissions@[i as int]));
                }
                if exists|k: int| 0 <= k < i + 1 && #[trigger] grants(s, user_id)(self.permissions@[k]) {
                    let k = choose|k: int| 0 <= k < i + 1 && #[trigger] grants(s, user_id)(self.permissions@[k]);
                    if k == i {
                        assert(r@[r@.len() - 1] == s);
                    } else {
                        assert(old_r.contains(s));
                        let j = choose|j: int| 0 <= j < old_r.len() && old_r[j] == s;
                        assert(r@[j] == s);
                    }
                }
            }
            i += 1;
        }
        r
    }

    /// The rooms of the structures `structures`.
    fn rooms_of_structures(&self, structures: &Vec<StructureID>) -> (r: Vec<RoomID>)
        ensures
            forall|id: RoomID|
                r@.contains(id) <==> exists|k: int|
                    0 <= k < self.rooms@.len() && #[trigger] self.rooms@[k].id == id
                        && structures@.contains(self.rooms@[k].structure_id),
    {
        let mut r: Vec<RoomID> = Vec::new();
        let mut i: usize = 0;
        while i < self.rooms.len()
            invariant
                i <= self.rooms@.len(),
                forall|id: RoomID|
                    r@.contains(id) <==> exists|k: int|
                        0 <= k < i && #[trigger] self.rooms@[k].id == id
                            && structures@.contains(self.rooms@[k].structure_id),
            decreases self.rooms.len() - i,
        {
            let room_id = self.rooms[i].id;
            let ghost old_r = r@;
            if contains_id(structures, self.rooms[i].structure_id) {
                r.push(room_id);
            }
            assert forall|id: RoomID|
                r@.contains(id) <==> exists|k: int|
                    0 <= k < i + 1 && #[trigger] self.rooms@[k].id == id
                        && structures@.contains(self.rooms@[k].structure_id) by {
                if r@.contains(id) && !old_r.contains(id) {
                    let j = choose|j: int| 0 <= j < r@.len() && r@[j] == id;
                    if j < old_r.len() {
                        assert(old_r[j] == id);
                    }
                    assert(self.rooms@[i as int].id == id);
                }
                if exists|k: int|
                    0 <= k < i + 1 && #[trigger] self.rooms@[k].id == id
                        && structures@.contains(self.rooms@[k].structure_id) {
                    let k = choose|k: int|
                        0 <= k < i + 1 && #[trigger] self.rooms@[k].id == id
                            && structures@.contains(self.rooms@[k].structure_id);
                    if k == i {
                        assert(r@[r@.len() - 1] == id);
                    } else {
                        assert(old_r.contains(id));
                        let j = choose|j: int| 0 <= j < old_r.len() && old_r[j] == id;
                        assert(r@[j] == id);
                    }
                }
            }
            i += 1;
        }
        r
    }

    /// The identifiers of the devices that user `user_id` may use: those in a
    /// room of a structure the user holds a permission for, in the order of
    /// the configuration.
    pub fn get_user_devices(&self, user_id: &UserID) -> (r: Vec<DeviceID>)
        ensures
            r@ == self.user_device_ids(*user_id),
    {
        let structures = self.permitted_structures(*user_id);
        let rooms = self.rooms_of_structures(&structures);
        let ghost pred = self.visible_to(*user_id);
        let ghost id_of = |d: Device| d.id;
        let mut r: Vec<DeviceID> = Vec::new();
        let mut i: usize = 0;
        while i < self.devices.len()
            invariant
                i <= self.devices@.len(),
                pred == self.visible_to(*user_id),
                id_of == (|d: Device| d.id),
                forall|id: RoomID|
                    rooms@.contains(id) <==> exists|k: int|
                        0 <= k < self.rooms@.len() && #[trigger] self.rooms@[k].id == id
                            && structures@.contains(self.rooms@[k].structure_id),
                forall|s: StructureID| structures@.contains(s) <==> self.user_permitted_in(*user_id, s),
                r@ == self.devices@.take(i as int).filter(pred).map_values(id_of),
            decreases self.devices.len() - i,
        {
            let d = &self.devices[i];
            let visible = contains_id(&rooms, d.room_id);
            proof {
                let dv = self.devices@[i as int];
                assert(visible == pred(dv)) by {
                    if visible {
                        let k = choose|k: int|
                            0 <= k < self.rooms@.len() && #[trigger] self.rooms@[k].id == dv.room_id
                                && structures@.contains(self.rooms@[k].structure_id);
                        assert(self.device_visible_to(*user_id, dv));
                    }
                    if self.device_visible_to(*user_id, dv) {
                        let k = choose|k: int|
                            0 <= k < self.rooms@.len() && #[trigger] self.rooms@[k].id == dv.room_id
                                && self.user_permitted_in(*user_id, self.rooms@[k].structure_id);
                        assert(rooms@.contains(dv.room_id));
                    }
                }
                let before = self.devices@.take(i as int);
                assert(self.devices@.take(i + 1) =~= before.push(dv));
                before.lemma_filter_push(dv, pred);
                assert(before.filter(pred).push(dv).map_values(id_of)
                    =~= before.filter(pred).map_values(id_of).push(dv.id));
            }
            if visible {
                r.push(d.id);
            }
            i += 1;
        }
        proof {
            assert(self.devices@.take(self.devices@.len() as int) =~= self.devices@);
        }
        r
    }

    fn user_position(&self, user_id: UserID) -> (r: Option<usize>)
        ensures
            match r {
                Some(i) => is_first(self.users@, user_has_id(user_id), i as int),
                None => none_match(self.users@, user_has_id(user_id)),
            },
    {
        position(
            &self.users,
            (|u: &User| -> (b: bool)
                ensures
                    b == (u.id == user_id),
                { u.id == user_id }),
            Ghost(user_has_id(user_id)),
        )
    }

    fn user_email_position(&self, email: &String) -> (r: Option<usize>)
        ensures
            match r {
                Some(i) => is_first(self.users@, user_has_email(email@), i as int),
                None => none_match(self.users@, user_has_email(email@)),
            },
    {
        position(
            &self.users,
            (|u: &User| -> (b: bool)
                ensures
                    b == (u.email@ == email@),
                { u.email == *email }),
            Ghost(user_has_email(email@)),
        )
    }

    fn device_position(&self, device_id: DeviceID) -> (r: Option<usize>)
        ensures
            match r {
                Some(i) => is_first(self.devices@, device_has_id(device_id), i as int),
                None => none_match(self.devices@, device_has_id(device_id)),
            },
    {
        position(
            &self.devices,
            (|d: &Device| -> (b: bool)
                ensures
                    b == (d.id == device_id),
                { d.id == device_id }),
            Ghost(device_has_id(device_id)),
        )
    }

    fn room_position(&self, room_id: RoomID) -> (r: Option<usize>)
        ensures
            match r {
                Some(i) => is_first(self.rooms@, room_has_id(room_id), i as int),
                None => none_match(self.rooms@, room_has_id(room_id)),
            },
    {
        position(
            &self.rooms,
            (|r: &Room| -> (b: bool)
                ensures
                    b == (r.id == room_id),
                { r.id == room_id }),
            Ghost(room_has_id(room_id)),
        )
    }

    fn permission_position(&self, structure_id: StructureID, user_id: UserID) -> (r: Option<usize>)
        ensures
            match r {
                Some(i) => is_first(self.permissions@, grants(structure_id, user_id), i as int),
                None => none_match(self.permissions@, grants(structure_id, user_id)),
            },
    {
        position(
            &self.permissions,
            (|p: &Permission| -> (b: bool)
                ensures
                    b == (p.structure_id == structure_id && p.user_id == user_id),
                { p.structure_id == structure_id && p.user_id == user_id }),
            Ghost(grants(structure_id, user_id)),
        )
    }

    /// The first user with identifier `user_id`.
    pub fn get_user(&self, user_id: &UserID) -> (r: Option<User>)
        ensures
            r == find(self.users@, user_has_id(*user_id)),
            r matches Some(u) ==> u.id == *user_id && self.users@.contains(u),
            r is None <==> forall|i: int| 0 <= i < self.users@.len() ==> #[trigger] self.users@[i].id != *user_id,
    {
        match self.user_position(*user_id) {
            Some(i) => {
                proof {
                    lemma_find_first(self.users@, user_has_id(*user_id), i as int);
                }
                Some(self.users[i].clone())
            },
            None => {
                proof {
                    lemma_find_none(self.users@, user_has_id(*user_id));
                }
                None
            },
        }
    }

    /// The first user with e-mail address `user_email`.
    pub fn get_user_by_email(&self, user_email: &str) -> (r: Option<User>)
        ensures
            r == find(self.users@, user_has_email(user_email@)),
            r matches Some(u) ==> u.email@ == user_email@ && self.users@.contains(u),
            r is None <==> forall|i: int|
                0 <= i < self.users@.len() ==> #[trigger] self.users@[i].email@ != user_email@,
    {
        let email = user_email.to_owned();
        match self.user_email_position(&email) {
            Some(i) => {
                proof {
                    lemma_find_first(self.users@, user_has_email(user_email@), i as int);
                }
                Some(self.users[i].clone())
            },
            None => {
                proof {
                    lemma_find_none(self.users@, user_has_email(user_email@));
                }
                None
            },
        }
    }

    /// The first device with identifier `device_id`.
    pub fn get_device(&self, device_id: &DeviceID) -> (r: Option<Device>)
        ensures
            match (r, self.device_of(*device_id)) {
                (Some(d), Some(e)) => d.same_as(e),
                (None, None) => true,
                _ => false,
            },
            r matches Some(d) ==> d.id == *device_id,
            r is None <==> forall|i: int|
                0 <= i < self.devices@.len() ==> #[trigger] self.devices@[i].id != *device_id,
    {
        match self.device_position(*device_id) {
            Some(i) => {
                proof {
                    lemma_find_first(self.devices@, device_has_id(*device_id), i as int);
                }
                Some(self.devices[i].clone())
            },
            None => {
                proof {
                    lemma_find_none(self.devices@, device_has_id(*device_id));
                }
                None
            },
        }
    }

    /// The first room with identifier `room_id`.
    pub fn get_room(&self, room_id: &RoomID) -> (r: Option<Room>)
        ensures
            r == find(self.rooms@, room_has_id(*room_id)),
            r matches Some(room) ==> room.id == *room_id && self.rooms@.contains(room),
            r is None <==> forall|i: int| 0 <= i < self.rooms@.len() ==> #[trigger] self.rooms@[i].id != *room_id,
    {
        match self.room_position(*room_id) {
            Some(i) => {
                proof {
                    lemma_find_first(self.rooms@, room_has_id(*room_id), i as int);
                }
                Some(self.rooms[i].clone())
            },
            None => {
                proof {
                    lemma_find_none(self.rooms@, room_has_id(*room_id));
                }
                None
            },
        }
    }

    /// The permission that lets `user_id` use the device `device_id`: the
    /// first one for the structure of the device's room.
    ///
    /// The device and its room must be in the configuration.
    pub fn get_permission(&self, device_id: &DeviceID, user_id: &UserID) -> (r: Option<Permission>)
        requires
            self.room_of_device(*device_id) is Some,
        ensures
            r == self.permission_for(*device_id, *user_id),
            r matches Some(p) ==> {
                &&& self.permissions@.contains(p)
                &&& p.user_id == *user_id
                &&& p.structure_id == self.room_of_device(*device_id).unwrap().structure_id
            },
            r matches Some(p) ==> exists|i: int|
                0 <= i < self.permissions@.len() && self.permissions@[i] == p && forall|j: int|
                    0 <= j < i ==> !(#[trigger] self.permissions@[j].user_id == *user_id
                        && self.permissions@[j].structure_id == p.structure_id),
            r is None <==> forall|k: int|
                0 <= k < self.permissions@.len() ==> !(#[trigger] self.permissions@[k].user_id
                    == *user_id && self.permissions@[k].structure_id == self.room_of_device(
                    *device_id,
                ).unwrap().structure_id),
    {
        proof {
            lemma_permission_is_configured(*self, *device_id, *user_id);
        }
        let di = match self.device_position(*device_id) {
            Some(i) => i,
            None => {
                proof {
                    lemma_find_none(self.devices@, device_has_id(*device_id));
                }
                return None;
            },
        };
        proof {
            lemma_find_first(self.devices@, device_has_id(*device_id), di as int);
        }
        let room_id = self.devices[di].room_id;
        let ri = match self.room_position(room_id) {
            Some(i) => i,
            None => {
                proof {
                    lemma_find_none(self.rooms@, room_has_id(room_id));
                }
                return None;
            },
        };
        proof {
            lemma_find_first(self.rooms@, room_has_id(room_id), ri as int);
        }
        let structure_id = self.rooms[ri].structure_id;
        match self.permission_position(structure_id, *user_id) {
            Some(i) => {
                proof {
                    lemma_find_first(self.permissions@, grants(structure_id, *user_id), i as int);
                }
                Some(self.permissions[i])
            },
            None => {
                proof {
                    lemma_find_none(self.permissions@, grants(structure_id, *user_id));
                }
                None
            },
        }
    }
}

impl Config {
    /// A structure with identifier `id` is configured.
    pub open spec fn has_structure(self, id: StructureID) -> bool {
        exists|k: int| 0 <= k < self.structures@.len() && #[trigger] self.structures@[k].id == id
    }

    /// A room with identifier `id` is configured.
    pub open spec fn has_room(self, id: RoomID) -> bool {
        exists|k: int| 0 <= k < self.rooms@.len() && #[trigger] self.rooms@[k].id == id
    }

    /// A user with identifier `id` is configured.
    pub open spec fn has_user(self, id: UserID) -> bool {
        exists|k: int| 0 <= k < self.users@.len() && #[trigger] self.users@[k].id == id
    }

    /// The room's structure is not configured.
    pub open spec fn room_unresolved(self) -> spec_fn(Room) -> bool {
        |r: Room| !self.has_structure(r.structure_id)
    }

    /// The device's room is not configured.
    pub open spec fn device_unresolved(self) -> spec_fn(Device) -> bool {
        |d: Device| !self.has_room(d.room_id)
    }

    /// The permission's structure or its user is not configured.
    pub open spec fn permission_unresolved(self) -> spec_fn(Permission) -> bool {
        |p: Permission| !self.has_structure(p.structure_id) || !self.has_user(p.user_id)
    }

    /// The first reference that does not resolve: rooms are checked first,
    /// then devices, then permissions, each in the order of the
    /// configuration; of a permission, the structure before the user.
    pub open spec fn first_problem(self) -> Option<ConfigError> {
        match find(self.rooms@, self.room_unresolved()) {
            Some(r) => Some(
                ConfigError::MissingStructureForRoom { structure_id: r.structure_id, room_id: r.id },
            ),
            None => match find(self.devices@, self.device_unresolved()) {
                Some(d) => Some(
                    ConfigError::MissingRoomForDevice { room_id: d.room_id, device_id: d.id },
                ),
                None => match find(self.permissions@, self.permission_unresolved()) {
                    Some(p) => if !self.has_structure(p.structure_id) {
                        Some(ConfigError::MissingStructureForPermission(p))
                    } else {
                        Some(ConfigError::MissingUserForPermission(p))
                    },
                    None => None,
                },
            },
        }
    }

    /// Every room's structure, every device's room, and every permission's
    /// structure and user are configured.
    pub open spec fn references_resolve(self) -> bool {
        &&& forall|i: int|
            0 <= i < self.rooms@.len() ==> self.has_structure(#[trigger] self.rooms@[i].structure_id)
        &&& forall|i: int|
            0 <= i < self.devices@.len() ==> self.has_room(#[trigger] self.devices@[i].room_id)
        &&& forall|i: int|
            0 <= i < self.permissions@.len() ==> self.has_structure(
                #[trigger] self.permissions@[i].structure_id,
            ) && self.has_user(self.permissions@[i].user_id)
    }

    fn structure_exists(&self, id: StructureID) -> (b: bool)
        ensures
            b == self.has_structure(id),
    {
        let found = position(
            &self.structures,
            (|s: &Structure| -> (b: bool)
                ensures
                    b == (s.id == id),
                { s.id == id }),
            Ghost(|s: Structure| s.id == id),
        );
        proof {
            if let Some(i) = found {
                assert(self.structures@[i as int].id == id);
            }
        }
        found.is_some()
    }

    fn room_exists(&self, id: RoomID) -> (b: bool)
        ensures
            b == self.has_room(id),
    {
        let found = self.room_position(id);
        proof {
            if let Some(i) = found {
                assert(self.rooms@[i as int].id == id);
            }
        }
        found.is_some()
    }

    fn user_exists(&self, id: UserID) -> (b: bool)
        ensures
            b == self.has_user(id),
    {
        let found = self.user_position(id);
        proof {
            if let Some(i) = found {
                assert(self.users@[i as int].id == id);
            }
        }
        found.is_some()
    }

    /// Finds the first reference of the configuration that does not resolve.
    pub fn check_references(&self) -> (r: Result<(), ConfigError>)
        ensures
            r == match self.first_problem() {
                Some(e) => Err(e),
                None => Ok(()),
            },
    {
        let mut i: usize = 0;
        while i < self.rooms.len()
            invariant
                i <= self.rooms@.len(),
                forall|j: int| 0 <= j < i ==> !self.room_unresolved()(#[trigger] self.rooms@[j]),
            decreases self.rooms.len() - i,
        {
            let room = &self.rooms[i];
            if !self.structure_exists(room.structure_id) {
                proof {
                    lemma_find_first(self.rooms@, self.room_unresolved(), i as int);
                }
                return Err(
                    ConfigError::MissingStructureForRoom {
                        structure_id: room.structure_id,
                        room_id: room.id,
                    },
                );
            }
            i += 1;
        }
        proof {
            lemma_find_none(self.rooms@, self.room_unresolved());
        }
        let mut i: usize = 0;
        while i < self.devices.len()
            invariant
                i <= self.devices@.len(),
                find(self.rooms@, self.room_unresolved()) is None,
                forall|j: int| 0 <= j < i ==> !self.device_unresolved()(#[trigger] self.devices@[j]),
            decreases self.devices.len() - i,
        {
            let device = &self.devices[i];
            if !self.room_exists(device.room_id) {
                proof {
                    lemma_find_first(self.devices@, self.device_unresolved(), i as int);
                }
                return Err(
                    ConfigError::MissingRoomForDevice { room_id: device.room_id, device_id: device.id },
                );
            }
            i += 1;
        }
        proof {
            lemma_find_none(self.devices@, self.device_unresolved());
        }
        let mut i: usize = 0;
        while i < self.permissions.len()
            invariant
                i <= self.permissions@.len(),
                find(self.rooms@, self.room_unresolved()) is None,
                find(self.devices@, self.device_unresolved()) is None,
                forall|j: int|
                    0 <= j < i ==> !self.permission_unresolved()(#[trigger] self.permissions@[j]),
            decreases self.permissions.len() - i,
        {
            let permission = self.permissions[i];
            if !self.structure_exists(permission.structure_id) {
                proof {
                    lemma_find_first(self.permissions@, self.permission_unresolved(), i as int);
                }
                return Err(ConfigError::MissingStructureForPermission(permission));
            }
            if !self.user_exists(permission.user_id) {
                proof {
                    lemma_find_first(self.permissions@, self.permission_unresolved(), i as int);
                }
                return Err(ConfigError::MissingUserForPermission(permission));
            }
            i += 1;
        }
        proof {
            lemma_find_none(self.permissions@, self.permission_unresolved());
        }
        Ok(())
    }

    /// Checks that every reference of the configuration resolves; on the
    /// first one that does not, returns the message that reports it.
    pub fn validate(&self) -> (r: Result<(), String>)
        ensures
            r is Ok <==> self.first_problem() is None,
            r matches Err(m) ==> m@ == self.first_problem().unwrap().message_text(),
    {
        match self.check_references() {
            Ok(()) => Ok(()),
            Err(e) => Err(e.message()),
        }
    }
}

impl Config {
    /// No two devices share an identifier, and no two rooms do.
    pub open spec fn identifiers_unique(self) -> bool {
        &&& forall|i: int, j: int|
            0 <= i < self.devices@.len() && 0 <= j < self.devices@.len()
                && #[trigger] self.devices@[i].id == #[trigger] self.devices@[j].id ==> i == j
        &&& forall|i: int, j: int|
            0 <= i < self.rooms@.len() && 0 <= j < self.rooms@.len()
                && #[trigger] self.rooms@[i].id == #[trigger] self.rooms@[j].id ==> i == j
    }
}

/// A configuration passes `validate` exactly when every room's structure,
/// every device's room, and every permission's structure and user are
/// configured.
pub proof fn lemma_valid_iff_references_resolve(config: Config)
    ensures
        config.first_problem() is None <==> config.references_resolve(),
{
    lemma_find_spec(config.rooms@, config.room_unresolved());
    lemma_find_spec(config.devices@, config.device_unresolved());
    lemma_find_spec(config.permissions@, config.permission_unresolved());
    if config.references_resolve() {
        assert forall|i: int| 0 <= i < config.rooms@.len() implies !config.room_unresolved()(
            #[trigger] config.rooms@[i],
        ) by {
            assert(config.has_structure(config.rooms@[i].structure_id));
        }
        assert forall|i: int| 0 <= i < config.devices@.len() implies !config.device_unresolved()(
            #[trigger] config.devices@[i],
        ) by {
            assert(config.has_room(config.devices@[i].room_id));
        }
        assert forall|i: int|
            0 <= i < config.permissions@.len() implies !config.permission_unresolved()(
            #[trigger] config.permissions@[i],
        ) by {
            assert(config.has_structure(config.permissions@[i].structure_id));
        }
    }
    if config.first_problem() is None {
        assert forall|i: int| 0 <= i < config.rooms@.len() implies config.has_structure(
            #[trigger] config.rooms@[i].structure_id,
        ) by {
            assert(!config.room_unresolved()(config.rooms@[i]));
        }
        assert forall|i: int| 0 <= i < config.devices@.len() implies config.has_room(
            #[trigger] config.devices@[i].room_id,
        ) by {
            assert(!config.device_unresolved()(config.devices@[i]));
        }
        assert forall|i: int| 0 <= i < config.permissions@.len() implies config.has_structure(
            #[trigger] config.permissions@[i].structure_id,
        ) && config.has_user(config.permissions@[i].user_id) by {
            assert(!config.permission_unresolved()(config.permissions@[i]));
        }
    }
}

/// When `get_permission` finds a permission of user `user_id` for device
/// `device_id`, `get_user_devices` lists that device for that user.
pub proof fn lemma_permitted_device_is_listed(config: Config, device_id: DeviceID, user_id: UserID)
    requires
        config.permission_for(device_id, user_id) is Some,
    ensures
        config.user_device_ids(user_id).contains(device_id),
{
    let devices = config.devices@;
    lemma_find_spec(devices, device_has_id(device_id));
    let x = config.device_of(device_id).unwrap();
    let i = choose|i: int| is_first(devices, device_has_id(device_id), i) && x == devices[i];
    lemma_find_spec(config.rooms@, room_has_id(x.room_id));
    let room = config.room_of_device(device_id).unwrap();
    let k = choose|k: int| is_first(config.rooms@, room_has_id(x.room_id), k) && room == config.rooms@[k];
    let g = grants(room.structure_id, user_id);
    lemma_find_spec(config.permissions@, g);
    let m = choose|m: int| is_first(config.permissions@, g, m);
    assert(g(config.permissions@[m]));
    assert(config.user_permitted_in(user_id, room.structure_id));
    assert(config.rooms@[k].id == x.room_id);
    assert(config.device_visible_to(user_id, x));
    let pred = config.visible_to(user_id);
    devices.lemma_filter_contains(pred, i);
    let filtered = devices.filter(pred);
    let j = choose|j: int| 0 <= j < filtered.len() && filtered[j] == devices[i];
    let ids = filtered.map_values(|d: Device| d.id);
    assert(ids[j] == device_id);
}

/// In a configuration whose device and room identifiers are unique, every
/// device that `get_user_devices` lists for user `user_id` is in the
/// configuration with its room, and `get_permission` finds a permission of
/// that user for it.
pub proof fn lemma_listed_device_is_permitted(config: Config, device_id: DeviceID, user_id: UserID)
    requires
        config.identifiers_unique(),
        config.user_device_ids(user_id).contains(device_id),
    ensures
        config.room_of_device(device_id) is Some,
        config.permission_for(device_id, user_id) is Some,
{
    let devices = config.devices@;
    let pred = config.visible_to(user_id);
    let filtered = devices.filter(pred);
    let ids = filtered.map_values(|d: Device| d.id);
    let j = choose|j: int| 0 <= j < ids.len() && ids[j] == device_id;
    let y = filtered[j];
    devices.lemma_filter_pred(pred, j);
    assert(filtered.contains(y));
    devices.lemma_filter_contains_rev(pred, y);
    let i = choose|i: int| 0 <= i < devices.len() && devices[i] == y;
    assert forall|l: int| 0 <= l < i implies !device_has_id(device_id)(#[trigger] devices[l]) by {
        if devices[l].id == devices[i].id {
            assert(l == i);
        }
    }
    lemma_find_first(devices, device_has_id(device_id), i);
    assert(config.device_visible_to(user_id, y));
    let k = choose|k: int|
        0 <= k < config.rooms@.len() && #[trigger] config.rooms@[k].id == y.room_id
            && config.user_permitted_in(user_id, config.rooms@[k].structure_id);
    assert forall|l: int| 0 <= l < k implies !room_has_id(y.room_id)(#[trigger] config.rooms@[l]) by {
        if config.rooms@[l].id == config.rooms@[k].id {
            assert(l == k);
        }
    }
    lemma_find_first(config.rooms@, room_has_id(y.room_id), k);
    let room = config.rooms@[k];
    let g = grants(room.structure_id, user_id);
    let m = choose|m: int| 0 <= m < config.permissions@.len() && #[trigger] g(config.permissions@[m]);
    lemma_find_spec(config.permissions@, g);
    assert(!none_match(config.permissions@, g));
}

/// Granting a user more permissions never hides a device: with the same
/// rooms and devices, and every permission of `before` also in `after`, the
/// devices listed for the user before are a subsequence of those listed
/// after.
pub proof fn lemma_more_permissions_hide_no_device(before: Config, after: Config, user_id: UserID)
    requires
        after.rooms@ == before.rooms@,
        after.devices@ == before.devices@,
        forall|k: int|
            0 <= k < before.permissions@.len() ==> after.permissions@.contains(
                #[trigger] before.permissions@[k],
            ),
    ensures
        is_subsequence(before.user_device_ids(user_id), after.user_device_ids(user_id)),
{
    assert forall|d: Device| #[trigger] before.visible_to(user_id)(d) implies after.visible_to(
        user_id,
    )(d) by {
        let k = choose|k: int|
            0 <= k < before.rooms@.len() && #[trigger] before.rooms@[k].id == d.room_id
                && before.user_permitted_in(user_id, before.rooms@[k].structure_id);
        let sid = before.rooms@[k].structure_id;
        let m = choose|m: int|
            0 <= m < before.permissions@.len() && #[trigger] grants(sid, user_id)(
                before.permissions@[m],
            );
        let perm = before.permissions@[m];
        assert(after.permissions@.contains(perm));
        let n = choose|n: int| 0 <= n < after.permissions@.len() && after.permissions@[n] == perm;
        assert(grants(sid, user_id)(after.permissions@[n]));
        assert(after.user_permitted_in(user_id, sid));
        assert(after.rooms@[k].id == d.room_id);
    }
    lemma_filter_map_subsequence(
        before.devices@,
        before.visible_to(user_id),
        after.visible_to(user_id),
        |d: Device| d.id,
    );
}

/// The permission found for a device and a user is one of the configured
/// permissions, unchanged: the first that names that user and the structure
/// of the device's room; none is found exactly when no configured permission
/// names both.
pub proof fn lemma_permission_is_configured(config: Config, device_id: DeviceID, user_id: UserID)
    requires
        config.room_of_device(device_id) is Some,
    ensures
        config.permission_for(device_id, user_id) matches Some(p) ==> {
            &&& config.permissions@.contains(p)
            &&& p.user_id == user_id
            &&& p.structure_id == config.room_of_device(device_id).unwrap().structure_id
        },
        config.permission_for(device_id, user_id) matches Some(p) ==> exists|i: int|
            0 <= i < config.permissions@.len() && config.permissions@[i] == p && forall|j: int|
                0 <= j < i ==> !(#[trigger] config.permissions@[j].user_id == user_id
                    && config.permissions@[j].structure_id == p.structure_id),
        config.permission_for(device_id, user_id) is None <==> forall|k: int|
            0 <= k < config.permissions@.len() ==> !(#[trigger] config.permissions@[k].user_id
                == user_id && config.permissions@[k].structure_id == config.room_of_device(
                device_id,
            ).unwrap().structure_id),
{
    let room = config.room_of_device(device_id).unwrap();
    let g = grants(room.structure_id, user_id);
    let perms = config.permissions@;
    lemma_find_spec(perms, g);
    if let Some(p) = config.permission_for(device_id, user_id) {
        let i = choose|i: int| is_first(perms, g, i) && p == perms[i];
        assert(perms[i] == p);
        assert forall|j: int| 0 <= j < i implies !(#[trigger] perms[j].user_id == user_id
            && perms[j].structure_id == p.structure_id) by {
            assert(!g(perms[j]));
        }
    }
    assert forall|k: int| 0 <= k < perms.len() implies (#[trigger] perms[k].user_id == user_id
        && perms[k].structure_id == room.structure_id) == g(perms[k]) by {}
}

} // verus!
