use roboscapesim::common::Shape;
use roboscapesim::ids::{generate_random_mac_address, generate_room_id, normalize_mac, UpperHexadecimal};
use roboscapesim::netsblox_api::{Project, ProjectId, PublishState, RoleData, RoleId, SaveState};
use roboscapesim::scenarios::{after_load_attempt, blank, contains_char, select_project, LoadStep, LocalScenarioDef, ProjectType};
use roboscapesim::service_type::ServiceType;
use roboscapesim::util::bytes_to_hex_string;
use roboscapesim::world::{classify_entity, decimal_string, entity_name, mesh_file_name, EntityKind};

fn is_upper_hex(c: char) -> bool {
    c.is_ascii_digit() || ('A'..='F').contains(&c)
}

#[test]
fn upper_hex_characters_by_top_bits() {
    let h = UpperHexadecimal;
    assert_eq!(h.char_for(0), 'A');
    assert_eq!(h.char_for(5 << 28), 'F');
    assert_eq!(h.char_for(6 << 28), '0');
    assert_eq!(h.char_for(0xffff_ffff), '9');
    for _ in 0..50 {
        assert!(is_upper_hex(h.sample()));
    }
}

#[test]
fn room_ids_are_room_and_hex_digits() {
    let id = generate_room_id(None);
    assert_eq!(id.len(), 9);
    assert!(id.starts_with("Room"));
    assert!(id[4..].chars().all(is_upper_hex));
    let long = generate_room_id(Some(12));
    assert_eq!(long.len(), 16);
    assert!(long[4..].chars().all(is_upper_hex));
    assert_eq!(generate_room_id(Some(0)), "Room");
}

#[test]
fn mac_is_local_unicast() {
    let mac = normalize_mac([0xff, 0x11, 0x22, 0x33, 0x9a, 0xbc]);
    assert_eq!(mac, [0xfe, 0x11, 0x22, 0x33, 0x9a, 0xbc]);
    let mac = normalize_mac([0x00, 0, 0, 0, 0x9a, 0xbc]);
    assert_eq!(mac[0], 0x02);
}

#[test]
fn mac_tail_never_starts_with_zero_digit() {
    // tail "0123": all digits and a leading zero
    let mac = normalize_mac([2, 0, 0, 0, 0x01, 0x23]);
    assert_eq!(mac[4], 0x11);
    let tail = bytes_to_hex_string(&mac[4..]);
    assert!(!tail.starts_with('0'));
}

#[test]
fn mac_tail_never_reads_as_exponent() {
    // tail "1e23": three digits and an e
    let mac = normalize_mac([2, 0, 0, 0, 0x1e, 0x23]);
    assert_eq!(mac[4], 0x9e);
    // tail "ab12" is left alone
    let mac = normalize_mac([2, 0, 0, 0, 0xab, 0x12]);
    assert_eq!(mac[4], 0xab);
}

#[test]
fn random_mac_addresses_follow_the_rules() {
    for _ in 0..50 {
        let mac = generate_random_mac_address();
        assert_eq!(mac[0] & 1, 0);
        assert_eq!(mac[0] & 2, 2);
        assert_eq!(normalize_mac(mac), mac);
    }
}

fn scenario(name: &str, path: &str, host: &str) -> LocalScenarioDef {
    LocalScenarioDef {
        name: name.to_owned(),
        path: path.to_owned(),
        creator: None,
        description: Some("A test".to_owned()),
        host: host.to_owned(),
    }
}

#[test]
fn blank_and_contains() {
    assert!(blank(""));
    assert!(blank(" \t\n"));
    assert!(!blank(" a "));
    assert!(contains_char("user/project", '/'));
    assert!(!contains_char("project", '/'));
}

#[test]
fn project_selection() {
    let scenarios = vec![
        ("maze".to_owned(), scenario("Maze", "scenarios/maze.xml", "local")),
        ("race".to_owned(), scenario("Race", "owner/Race", "netsblox")),
    ];
    let default = "<default/>".to_owned();
    assert!(matches!(select_project(None, &scenarios, &default), ProjectType::ProjectXML(x) if x == default));
    assert!(matches!(
        select_project(Some("  ".to_owned()), &scenarios, &default),
        ProjectType::ProjectXML(x) if x == default
    ));
    assert!(matches!(
        select_project(Some("bob/Project".to_owned()), &scenarios, &default),
        ProjectType::RemoteProject(x) if x == "bob/Project"
    ));
    assert!(matches!(
        select_project(Some("MAZE".to_owned()), &scenarios, &default),
        ProjectType::LocalProject(x) if x == "scenarios/maze.xml"
    ));
    assert!(matches!(
        select_project(Some("Race".to_owned()), &scenarios, &default),
        ProjectType::RemoteProject(x) if x == "owner/Race"
    ));
    assert!(matches!(
        select_project(Some("unknown".to_owned()), &scenarios, &default),
        ProjectType::ProjectXML(x) if x == default
    ));
}

#[test]
fn scenario_listing() {
    let info = scenario("Maze", "p", "local").to_environment_info();
    assert_eq!(info.id, "Maze");
    assert_eq!(info.name, "Maze");
    assert_eq!(info.description, "A test");
    let mut bare = scenario("Bare", "p", "local");
    bare.description = None;
    assert_eq!(bare.to_environment_info().description, "");
}

#[test]
fn entity_classification() {
    assert_eq!(classify_entity(&"robot".to_owned()), EntityKind::Robot);
    assert_eq!(classify_entity(&"orb".to_owned()), EntityKind::Ball);
    assert_eq!(classify_entity(&"spheroid".to_owned()), EntityKind::Ball);
    assert_eq!(classify_entity(&"trigger".to_owned()), EntityKind::Trigger);
    assert_eq!(classify_entity(&"box".to_owned()), EntityKind::Block);
    assert_eq!(classify_entity(&"anything".to_owned()), EntityKind::Block);
    assert_eq!(EntityKind::Ball.shape(), Shape::Sphere);
    assert_eq!(EntityKind::Block.shape(), Shape::Box);
}

#[test]
fn entity_names_and_meshes() {
    assert_eq!(decimal_string(0), "0");
    assert_eq!(decimal_string(1207), "1207");
    assert_eq!(decimal_string(u64::MAX), u64::MAX.to_string());
    assert_eq!(entity_name(EntityKind::Block, 3), "block3");
    assert_eq!(entity_name(EntityKind::Ball, 10), "ball10");
    assert_eq!(entity_name(EntityKind::Trigger, 0), "trigger0");
    assert_eq!(mesh_file_name("parallax_robot".to_owned()), "parallax_robot.glb");
    assert_eq!(mesh_file_name("tree.gltf".to_owned()), "tree.gltf");
}

#[test]
fn shape_names() {
    assert_eq!(Shape::Box.to_string(), "box");
    assert_eq!(Shape::Sphere.to_string(), "sphere");
    assert_eq!(Shape::Cylinder.to_string(), "cylinder");
    assert_eq!(Shape::Capsule.to_string(), "capsule");
}

#[test]
fn service_names_round_trip() {
    let all = [
        ServiceType::World,
        ServiceType::Entity,
        ServiceType::PositionSensor,
        ServiceType::LIDAR,
        ServiceType::ProximitySensor,
        ServiceType::Trigger,
        ServiceType::WaypointList,
        ServiceType::Unknown,
    ];
    for t in all {
        assert_eq!(ServiceType::from_name(&t.name().to_owned()), t);
        assert_eq!(ServiceType::from(t.name().to_owned()), t);
    }
    assert_eq!(ServiceType::World.name(), "RoboScapeWorld");
    assert_eq!(ServiceType::LIDAR.name(), "LIDARSensor");
    assert_eq!(ServiceType::from_name(&"Nonsense".to_owned()), ServiceType::Unknown);
}

#[test]
fn role_xml_escapes_quotes_in_the_name() {
    let role = RoleData { name: "my \"role\"".to_owned(), code: "<code/>".to_owned(), media: "<media/>".to_owned() };
    assert_eq!(role.to_xml(), "<role name=\"my \\\"role\\\"\"><code/><media/></role>");
}

#[test]
fn project_xml_joins_roles_with_spaces() {
    let now = std::time::SystemTime::now();
    let role = |n: &str| RoleData { name: n.to_owned(), code: "c".to_owned(), media: "m".to_owned() };
    let project = Project {
        id: ProjectId("p1".to_owned()),
        owner: "alice".to_owned(),
        name: "Demo".to_owned(),
        updated: now,
        state: PublishState::Private,
        collaborators: vec![],
        origin_time: now,
        save_state: SaveState::Saved,
        roles: vec![(RoleId("a".to_owned()), role("r1")), (RoleId("b".to_owned()), role("r2"))],
    };
    assert_eq!(
        project.to_xml(),
        "<room name=\"Demo\" app=\"NetsBlox\"><role name=\"r1\">cm</role> <role name=\"r2\">cm</role></room>"
    );
    let empty = Project { roles: vec![], ..project };
    assert_eq!(empty.to_xml(), "<room name=\"Demo\" app=\"NetsBlox\"></room>");
}

#[test]
fn project_loading_retries_once_then_falls_back() {
    let default = "<default/>".to_owned();
    assert!(matches!(after_load_attempt(0, Ok("<p/>".to_owned()), &default), LoadStep::Loaded(x) if x == "<p/>"));
    assert!(matches!(after_load_attempt(0, Err("down".to_owned()), &default), LoadStep::Retry));
    assert!(matches!(after_load_attempt(1, Ok("<q/>".to_owned()), &default), LoadStep::Loaded(x) if x == "<q/>"));
    assert!(matches!(after_load_attempt(1, Err("down".to_owned()), &default), LoadStep::Loaded(x) if x == default));
}
