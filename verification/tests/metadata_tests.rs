use roboscapesim::clients::ClientsManager;
use roboscapesim::metadata::RoomMetadata;
use roboscapesim::registry::{server_is_stale, total_max_rooms};
use roboscapesim::server_api::server_status;
use roboscapesim::service_definition::{definition_for, get_service_definition};
use roboscapesim::service_type::ServiceType;

fn sorted(mut v: Vec<String>) -> Vec<String> {
    v.sort();
    v
}

#[test]
fn new_room_defaults() {
    let m = RoomMetadata::for_new_room(None, None, None, false);
    assert_eq!(m.name.len(), 9);
    assert!(m.name.starts_with("Room"));
    assert_eq!(m.environment, "Default");
    assert_eq!(m.hibernate_timeout, 900);
    assert_eq!(m.full_timeout, 32400);
    assert!(!m.hibernating);
    let e = RoomMetadata::for_new_room(Some("Lab".to_owned()), Some("Maze".to_owned()), Some("pw".to_owned()), true);
    assert_eq!(e.name, "Lab");
    assert_eq!(e.environment, "Maze");
    assert_eq!(e.password, Some("pw".to_owned()));
    assert_eq!(e.hibernate_timeout, 1800);
    assert!(e.edit_mode);
}

#[test]
fn joining_records_visitors_and_clients() {
    let mut m = RoomMetadata::new("R".to_owned(), "Default".to_owned(), Some("pw".to_owned()), 900, 32400, false);
    let mut clients = ClientsManager::new();
    assert_eq!(m.join(&mut clients, &"alice".to_owned(), &"nope".to_owned(), 1), Err("Wrong password!".to_owned()));
    assert!(clients.is_empty());
    assert_eq!(m.join(&mut clients, &"alice".to_owned(), &"pw".to_owned(), 1), Ok(()));
    assert_eq!(m.join(&mut clients, &"alice".to_owned(), &"pw".to_owned(), 2), Ok(()));
    assert_eq!(m.join(&mut clients, &"bob".to_owned(), &"pw".to_owned(), 3), Ok(()));
    let info = m.get_room_info("wss://x".to_owned());
    assert_eq!(info.id, "R");
    assert_eq!(info.server, "wss://x");
    assert_eq!(info.creator, "TODO");
    assert!(info.has_password);
    assert!(!info.is_hibernating);
    assert_eq!(sorted(info.visitors), vec!["alice".to_owned(), "bob".to_owned()]);
    assert_eq!(clients.username_of(2), Some("alice".to_owned()));
}

#[test]
fn hibernation_state_follows_clients() {
    let mut m = RoomMetadata::new("R".to_owned(), "Default".to_owned(), None, 900, 32400, false);
    let mut clients = ClientsManager::new();
    m.check_hibernation_state(&clients, 100);
    assert!(m.hibernating);
    assert_eq!(m.hibernating_since, 100);
    m.check_hibernation_state(&clients, 200);
    assert_eq!(m.hibernating_since, 100);
    clients.add_client(&"alice".to_owned(), 1);
    m.check_hibernation_state(&clients, 300);
    assert!(!m.hibernating);
    assert_eq!(m.hibernating_since, 100);
}

#[test]
fn idle_rooms_sleep_then_expire() {
    let mut m = RoomMetadata::new("R".to_owned(), "Default".to_owned(), None, 900, 32400, false);
    assert!(!m.idle_too_long(1900, 1000));
    assert!(m.idle_too_long(1901, 1000));
    assert!(!m.expired(33400, 1000));
    assert!(m.expired(33401, 1000));
    let mut clients = ClientsManager::new();
    clients.add_client(&"alice".to_owned(), 1);
    m.hibernate_idle(&mut clients, 1901);
    assert!(m.hibernating);
    assert_eq!(m.hibernating_since, 1901);
    assert!(clients.is_empty());
    assert!(!m.idle_too_long(5000, 1000));
}

#[test]
fn server_status_counts_rooms() {
    let s = server_status(&vec![true, false, true, false, false], 64, "wss://x".to_owned());
    assert_eq!(s.active_rooms, 5);
    assert_eq!(s.hibernating_rooms, 2);
    assert_eq!(s.max_rooms, 64);
    assert_eq!(s.address, "wss://x");
    let empty = server_status(&vec![], 8, "a".to_owned());
    assert_eq!((empty.active_rooms, empty.hibernating_rooms), (0, 0));
}

#[test]
fn servers_go_stale_after_six_minutes() {
    assert!(!server_is_stale(360));
    assert!(server_is_stale(361));
    assert_eq!(total_max_rooms(&vec![64, 32, 4]), 100);
    assert_eq!(total_max_rooms(&vec![]), 0);
}

#[test]
fn world_service_interface() {
    let d = get_service_definition("world1");
    assert_eq!(d.id, "world1");
    let names: Vec<&str> = d.methods.iter().map(|(n, _)| n.as_str()).collect();
    assert_eq!(
        names,
        vec![
            "addBlock",
            "addEntity",
            "addRobot",
            "addSensor",
            "clearText",
            "instantiateEntities",
            "listEntities",
            "listMeshes",
            "listTextures",
            "listUsers",
            "removeAllEntities",
            "removeEntity",
            "reset",
            "showText"
        ]
    );
    let add_block = &d.methods[0].1;
    assert_eq!(add_block.params.len(), 9);
    assert_eq!(add_block.params[7].name, "kinematic");
    assert_eq!(add_block.params[7].param_type, "boolean");
    assert!(add_block.params[7].optional);
    assert_eq!(add_block.returns.types, vec!["string".to_owned()]);
    let show_text = &d.methods[13].1;
    assert_eq!(show_text.params[2].name, "timeout");
    assert!(show_text.params[2].optional);
    let events: Vec<(&str, Vec<String>)> = d.events.iter().map(|(n, e)| (n.as_str(), e.params.clone())).collect();
    assert_eq!(
        events,
        vec![("reset", vec![]), ("userJoined", vec!["username".to_owned()]), ("userLeft", vec!["username".to_owned()])]
    );
    assert_eq!(d.description.contact, Some("gstein@ltu.edu".to_owned()));
    assert_eq!(d.description.version, "1");
}

#[test]
fn sensor_service_interfaces() {
    let trigger = definition_for(ServiceType::Trigger, "t1").unwrap();
    assert_eq!(trigger.methods[0].0, "entitiesInside");
    assert_eq!(trigger.methods[0].1.returns.types.len(), 2);
    assert_eq!(trigger.events[0].0, "triggerEnter");
    assert_eq!(trigger.events[1].1.params, vec!["entity".to_owned(), "trigger".to_owned()]);
    let position = definition_for(ServiceType::PositionSensor, "p1").unwrap();
    let names: Vec<&str> = position.methods.iter().map(|(n, _)| n.as_str()).collect();
    assert_eq!(names, vec!["getHeading", "getPosition", "getX", "getY", "getZ"]);
    assert_eq!(position.methods[1].1.returns.types, vec!["number".to_owned(); 3]);
    let entity = definition_for(ServiceType::Entity, "e1").unwrap();
    assert_eq!(entity.methods[4].0, "setRotation");
    assert_eq!(entity.methods[4].1.params[1].name, "yaw");
    let world = definition_for(ServiceType::World, "w").unwrap();
    assert_eq!(world.methods.len(), 14);
    assert!(definition_for(ServiceType::Unknown, "u").is_none());
    let lidar = definition_for(ServiceType::LIDAR, "l").unwrap();
    assert_eq!(lidar.description.description, Some("Get distances at multiple angles".to_owned()));
}
