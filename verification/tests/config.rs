use houseflow::config::{Config, ConfigError, Email, Google, IpAddress, Network, Secrets, Smtp, Tls};
use houseflow::types::{Device, DeviceTrait, DeviceType, Permission, Room, Structure, User, Version};

fn id(text: &str) -> u128 {
    uuid::Uuid::parse_str(text).unwrap().as_u128()
}

fn empty_config() -> Config {
    Config {
        network: Default::default(),
        secrets: Secrets::from_key_bytes(&[1], &[2], &[3]),
        tls: None,
        email: Email::Smtp(Smtp {
            hostname: url::Host::Domain(String::from("localhost")),
            port: 0,
            from: String::new(),
            username: String::new(),
            password: String::new(),
        }),
        google: None,
        structures: Vec::new(),
        rooms: Vec::new(),
        devices: Vec::new(),
        users: Vec::new(),
        permissions: Vec::new(),
    }
}

fn device(id: u128, room_id: u128, name: &str) -> Device {
    Device {
        id,
        room_id,
        password_hash: Some(String::from("some-light-password")),
        device_type: DeviceType::Light,
        traits: [DeviceTrait::OnOff].to_vec(),
        name: String::from(name),
        will_push_state: false,
        model: String::from("alice"),
        hw_version: Version::new(0, 0, 0),
        sw_version: Version::new(0, 0, 0),
        attributes: Default::default(),
    }
}

fn example_config() -> Config {
    Config {
        network: Network { address: IpAddress::V4(0) },
        secrets: Secrets {
            refresh_key: String::from("some-refresh-key"),
            access_key: String::from("some-access-key"),
            authorization_code_key: String::from("some-authorization-code-key"),
        },
        tls: Some(Tls {
            certificate: std::path::PathBuf::from("/etc/certificate"),
            private_key: std::path::PathBuf::from("/etc/private-key"),
        }),
        email: Email::Smtp(Smtp {
            hostname: url::Host::Domain(String::from("email.houseflow.gbaranski.com")),
            port: 666,
            from: String::from("houseflow@gbaranski.com"),
            username: String::from("some-username"),
            password: String::from("some-password"),
        }),
        google: Some(Google {
            client_id: String::from("google-client-id"),
            client_secret: String::from("google-client-secret"),
            project_id: String::from("google-project-id"),
        }),
        structures: [Structure { id: id("bd7feab5033940e296ed7fcdc700ba65"), name: String::from("Zukago") }]
            .to_vec(),
        rooms: [Room {
            id: id("baafebaa0708441782cf17470dd98392"),
            structure_id: id("bd7feab5033940e296ed7fcdc700ba65"),
            name: String::from("Bedroom"),
        }]
        .to_vec(),
        devices: [Device {
            id: id("aa9936b052cb4718b77c87961d14c79c"),
            room_id: id("baafebaa0708441782cf17470dd98392"),
            password_hash: Some(String::from(
                "$argon2i$v=19$m=4096,t=3,p=1$oWC2oDYLWUkx46MehdPiuw$3ibEvJypruiJ1kk4IczUPgbgLKiMOJ6nO+OqiA1Ez6U",
            )),
            device_type: DeviceType::Light,
            traits: [DeviceTrait::OnOff].to_vec(),
            name: String::from("Night Lamp"),
            will_push_state: true,
            model: String::from("alice"),
            hw_version: Version::new(0, 1, 0),
            sw_version: Version::new(0, 1, 0),
            attributes: Default::default(),
        }]
        .to_vec(),
        users: [User {
            id: id("861ccceaa3e349138ce2498768dbfe09"),
            username: String::from("gbaranski"),
            email: String::from("root@gbaranski.com"),
            admin: false,
        }]
        .to_vec(),
        permissions: [Permission {
            structure_id: id("bd7feab5033940e296ed7fcdc700ba65"),
            user_id: id("861ccceaa3e349138ce2498768dbfe09"),
            is_manager: true,
        }]
        .to_vec(),
    }
}

#[test]
fn user_permissions() {
    let user_auth = User {
        id: rand::random(),
        username: String::from("gbaranski"),
        email: String::from("root@gbaranski.com"),
        admin: false,
    };
    let user_unauth = User {
        id: rand::random(),
        username: String::from("stanbar"),
        email: String::from("stanbar@gbaranski.com"),
        admin: false,
    };
    let structure_auth = Structure { id: rand::random(), name: String::from("Zukago") };
    let structure_unauth = Structure { id: rand::random(), name: String::from("Gdansk") };
    let room_auth_one =
        Room { id: rand::random(), structure_id: structure_auth.id.clone(), name: String::from("Bedroom") };
    let room_auth_two =
        Room { id: rand::random(), structure_id: structure_auth.id.clone(), name: String::from("Garage") };
    let room_unauth_one =
        Room { id: rand::random(), structure_id: structure_unauth.id.clone(), name: String::from("Bedroom") };
    let room_unauth_two =
        Room { id: rand::random(), structure_id: structure_unauth.id.clone(), name: String::from("Garage") };
    let device_auth_one = Device {
        id: rand::random(),
        room_id: room_auth_one.id.clone(),
        password_hash: Some(String::from("some-light-password")),
        device_type: DeviceType::Light,
        traits: [DeviceTrait::OnOff].to_vec(),
        name: String::from("Night lamp"),
        will_push_state: false,
        model: String::from("alice"),
        hw_version: Version::new(0, 0, 0),
        sw_version: Version::new(0, 0, 0),
        attributes: Default::default(),
    };
    let device_auth_two = Device {
        id: rand::random(),
        room_id: room_auth_two.id.clone(),
        password_hash: Some(String::from("some-garage-password")),
        device_type: DeviceType::Garage,
        traits: [DeviceTrait::OpenClose].to_vec(),
        name: String::from("garage"),
        will_push_state: false,
        model: String::from("bob"),
        hw_version: Version::new(0, 0, 0),
        sw_version: Version::new(0, 0, 0),
        attributes: Default::default(),
    };
    let device_unauth_one = Device {
        id: rand::random(),
        room_id: room_unauth_one.id.clone(),
        password_hash: Some(String::from("some-light-password")),
        device_type: DeviceType::Light,
        traits: [DeviceTrait::OnOff].to_vec(),
        name: String::from("Night lamp"),
        will_push_state: false,
        model: String::from("alice"),
        hw_version: Version::new(0, 0, 0),
        sw_version: Version::new(0, 0, 0),
        attributes: Default::default(),
    };
    let device_unauth_two = Device {
        id: rand::random(),
        room_id: room_unauth_two.id.clone(),
        password_hash: Some(String::from("some-garage-password")),
        device_type: DeviceType::Garage,
        traits: [DeviceTrait::OpenClose].to_vec(),
        name: String::from("garage"),
        will_push_state: false,
        model: String::from("bob"),
        hw_version: Version::new(0, 0, 0),
        sw_version: Version::new(0, 0, 0),
        attributes: Default::default(),
    };
    let config = Config {
        network: Default::default(),
        secrets: Secrets::generate(),
        tls: Default::default(),
        email: Email::Smtp(Smtp {
            hostname: url::Host::parse("0.0.0.0").unwrap(),
            port: 0,
            from: String::new(),
            username: String::new(),
            password: String::new(),
        }),
        google: Default::default(),
        structures: [structure_auth.clone(), structure_unauth.clone()].to_vec(),
        rooms: [room_auth_one, room_auth_two, room_unauth_one, room_unauth_two].to_vec(),
        devices: [
            device_auth_one.clone(),
            device_auth_two.clone(),
            device_unauth_one.clone(),
            device_unauth_two.clone(),
        ]
        .to_vec(),
        users: [user_auth.clone(), user_unauth.clone()].to_vec(),
        permissions: [
            Permission {
                structure_id: structure_auth.id.clone(),
                user_id: user_auth.id.clone(),
                is_manager: true,
            },
            Permission {
                structure_id: structure_unauth.id.clone(),
                user_id: user_unauth.id.clone(),
                is_manager: true,
            },
        ]
        .to_vec(),
    };
    let user_auth_devices = config.get_user_devices(&user_auth.id);
    let user_unauth_devices = config.get_user_devices(&user_unauth.id);
    assert_eq!(user_auth_devices, vec![device_auth_one.id.clone(), device_auth_two.id.clone()]);
    assert_eq!(user_unauth_devices, vec![device_unauth_one.id.clone(), device_unauth_two.id.clone()]);

    assert_eq!(
        config.get_permission(&device_auth_one.id, &user_auth.id),
        Some(Permission {
            structure_id: structure_auth.id.clone(),
            user_id: user_auth.id.clone(),
            is_manager: true,
        })
    );
    assert_eq!(
        config.get_permission(&device_auth_two.id, &user_auth.id),
        Some(Permission {
            structure_id: structure_auth.id.clone(),
            user_id: user_auth.id.clone(),
            is_manager: true,
        })
    );
    assert_eq!(
        config.get_permission(&device_unauth_one.id, &user_unauth.id),
        Some(Permission {
            structure_id: structure_unauth.id.clone(),
            user_id: user_unauth.id.clone(),
            is_manager: true,
        })
    );
    assert_eq!(
        config.get_permission(&device_unauth_two.id, &user_unauth.id),
        Some(Permission {
            structure_id: structure_unauth.id.clone(),
            user_id: user_unauth.id.clone(),
            is_manager: true,
        })
    );

    assert_eq!(config.get_permission(&device_unauth_one.id, &user_auth.id), None);
    assert_eq!(config.get_permission(&device_unauth_two.id, &user_auth.id), None);
}

#[test]
fn example_config_validates() {
    let config = example_config();
    assert_eq!(config.validate(), Ok(()));
    assert_eq!(config.check_references(), Ok(()));
}

#[test]
fn validate_reports_room_without_structure() {
    let mut config = example_config();
    config.structures.clear();
    assert_eq!(
        config.check_references(),
        Err(ConfigError::MissingStructureForRoom {
            structure_id: id("bd7feab5033940e296ed7fcdc700ba65"),
            room_id: id("baafebaa0708441782cf17470dd98392"),
        })
    );
    assert_eq!(
        config.validate(),
        Err(String::from(
            "Couldn't find structure with id: bd7feab5-0339-40e2-96ed-7fcdc700ba65 for room: baafebaa-0708-4417-82cf-17470dd98392"
        ))
    );
}

#[test]
fn validate_reports_device_without_room() {
    let mut config = example_config();
    config.rooms.clear();
    assert_eq!(
        config.validate(),
        Err(String::from(
            "Couldn't find room with id: baafebaa-0708-4417-82cf-17470dd98392 for device: aa9936b0-52cb-4718-b77c-87961d14c79c"
        ))
    );
}

#[test]
fn validate_reports_permission_without_structure() {
    let mut config = example_config();
    config.rooms.clear();
    config.devices.clear();
    config.structures.clear();
    assert_eq!(
        config.validate(),
        Err(String::from(
            "Couldn't find structure with id: bd7feab5-0339-40e2-96ed-7fcdc700ba65 for permission: Permission { structure_id: bd7feab5-0339-40e2-96ed-7fcdc700ba65, user_id: 861cccea-a3e3-4913-8ce2-498768dbfe09, is_manager: true }"
        ))
    );
}

#[test]
fn validate_reports_permission_without_user() {
    let mut config = example_config();
    config.users.clear();
    config.permissions[0].is_manager = false;
    assert_eq!(
        config.validate(),
        Err(String::from(
            "Couldn't find user with id: 861cccea-a3e3-4913-8ce2-498768dbfe09 for permission: Permission { structure_id: bd7feab5-0339-40e2-96ed-7fcdc700ba65, user_id: 861cccea-a3e3-4913-8ce2-498768dbfe09, is_manager: false }"
        ))
    );
}

#[test]
fn validate_reports_rooms_before_devices() {
    let mut config = example_config();
    config.rooms[0].structure_id = 1;
    config.devices[0].room_id = 2;
    assert_eq!(
        config.check_references(),
        Err(ConfigError::MissingStructureForRoom { structure_id: 1, room_id: id("baafebaa0708441782cf17470dd98392") })
    );
}

#[test]
fn empty_config_validates() {
    assert_eq!(empty_config().validate(), Ok(()));
}

#[test]
fn get_user_finds_first_match() {
    let mut config = empty_config();
    config.users = vec![
        User { id: 1, username: String::from("a"), email: String::from("a@x"), admin: false },
        User { id: 2, username: String::from("b"), email: String::from("b@x"), admin: true },
        User { id: 2, username: String::from("c"), email: String::from("a@x"), admin: false },
    ];
    assert_eq!(config.get_user(&2).map(|u| u.username), Some(String::from("b")));
    assert_eq!(config.get_user(&3), None);
    assert_eq!(config.get_user_by_email("a@x").map(|u| u.username), Some(String::from("a")));
    assert_eq!(config.get_user_by_email("nobody@x"), None);
}

#[test]
fn get_device_keeps_attributes() {
    let mut config = empty_config();
    let mut lamp = device(1, 10, "lamp");
    lamp.attributes = vec![(String::from("color"), String::from("warm"))];
    config.devices = vec![lamp.clone()];
    assert_eq!(config.get_device(&1), Some(lamp));
}

#[test]
fn get_device_and_room() {
    let mut config = empty_config();
    config.rooms = vec![Room { id: 10, structure_id: 20, name: String::from("Kitchen") }];
    config.devices = vec![device(1, 10, "lamp"), device(2, 10, "fan")];
    assert_eq!(config.get_device(&2), Some(device(2, 10, "fan")));
    assert_eq!(config.get_device(&3), None);
    assert_eq!(config.get_room(&10).map(|r| r.name), Some(String::from("Kitchen")));
    assert_eq!(config.get_room(&11), None);
}

#[test]
fn get_user_devices_keeps_configuration_order() {
    let mut config = empty_config();
    config.rooms = vec![
        Room { id: 10, structure_id: 100, name: String::from("a") },
        Room { id: 11, structure_id: 101, name: String::from("b") },
    ];
    config.devices = vec![device(3, 11, "x"), device(1, 10, "y"), device(2, 12, "z"), device(4, 11, "w")];
    config.permissions = vec![Permission { structure_id: 101, user_id: 7, is_manager: false }];
    assert_eq!(config.get_user_devices(&7), vec![3, 4]);
    assert_eq!(config.get_user_devices(&8), Vec::<u128>::new());
}

#[test]
fn permission_and_listing_agree() {
    let mut config = empty_config();
    config.rooms = vec![
        Room { id: 10, structure_id: 100, name: String::from("a") },
        Room { id: 11, structure_id: 101, name: String::from("b") },
    ];
    config.devices = vec![device(1, 10, "y"), device(2, 11, "z")];
    config.permissions = vec![
        Permission { structure_id: 101, user_id: 7, is_manager: false },
        Permission { structure_id: 101, user_id: 7, is_manager: true },
    ];
    let listed = config.get_user_devices(&7);
    for d in [1u128, 2] {
        assert_eq!(listed.contains(&d), config.get_permission(&d, &7).is_some());
    }
    assert_eq!(
        config.get_permission(&2, &7),
        Some(Permission { structure_id: 101, user_id: 7, is_manager: false })
    );
}

#[test]
fn network_defaults_to_localhost() {
    let network: Network = Default::default();
    assert_eq!(network.address, IpAddress::V4(0x7f00_0001));
}

#[test]
fn more_permissions_hide_no_device() {
    let mut config = empty_config();
    config.rooms = vec![
        Room { id: 10, structure_id: 100, name: String::from("a") },
        Room { id: 11, structure_id: 101, name: String::from("b") },
    ];
    config.devices = vec![device(1, 11, "x"), device(2, 10, "y"), device(3, 11, "z")];
    config.permissions = vec![Permission { structure_id: 101, user_id: 7, is_manager: false }];
    let before = config.get_user_devices(&7);
    config.permissions.push(Permission { structure_id: 100, user_id: 7, is_manager: true });
    let after = config.get_user_devices(&7);
    assert_eq!(before, vec![1, 3]);
    assert_eq!(after, vec![1, 2, 3]);
}
