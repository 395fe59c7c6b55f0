use roboscapesim::common::{RoomInfo, ServerStatus};
use roboscapesim::registry::{
    choose_server, get_active_rooms_per_server, get_rooms_list, parse_bool, pick_least_loaded,
    rooms_on_server, rooms_removed_by_announce,
};
use roboscapesim::server_api::{get_local_api_server, get_main_api_server, get_rooms, get_server, has_visitor};

fn room(id: &str, server: &str, hibernating: bool, visitors: &[&str]) -> RoomInfo {
    RoomInfo {
        id: id.to_owned(),
        environment: "Default".to_owned(),
        server: server.to_owned(),
        has_password: false,
        is_hibernating: hibernating,
        creator: "alice".to_owned(),
        visitors: visitors.iter().map(|v| v.to_string()).collect(),
    }
}

fn ids(rooms: &[RoomInfo]) -> Vec<String> {
    rooms.iter().map(|r| r.id.clone()).collect()
}

#[test]
fn active_rooms_are_counted_per_server() {
    let servers = vec!["a".to_owned(), "b".to_owned()];
    let rooms = vec![
        room("r1", "a", false, &[]),
        room("r2", "a", true, &[]),
        room("r3", "a", false, &[]),
        room("r4", "c", false, &[]),
        room("r5", "d", true, &[]),
    ];
    let mut counts = get_active_rooms_per_server(&servers, &rooms);
    counts.sort();
    assert_eq!(counts, vec![("a".to_owned(), 2), ("b".to_owned(), 0), ("c".to_owned(), 1)]);
}

#[test]
fn least_loaded_pick_uses_the_random_number_among_the_emptiest() {
    let counts = vec![("a".to_owned(), 2), ("b".to_owned(), 0), ("c".to_owned(), 1), ("d".to_owned(), 0)];
    assert_eq!(pick_least_loaded(&counts, 0), Some("b".to_owned()));
    assert_eq!(pick_least_loaded(&counts, 1), Some("d".to_owned()));
    assert_eq!(pick_least_loaded(&counts, 7), Some("d".to_owned()));
    assert_eq!(pick_least_loaded(&vec![], 3), None);
}

#[test]
fn chosen_server_has_the_fewest_awake_rooms() {
    let servers = vec!["a".to_owned(), "b".to_owned()];
    let rooms = vec![room("r1", "a", false, &[]), room("r2", "b", true, &[])];
    for _ in 0..20 {
        assert_eq!(choose_server(&servers, &rooms), Some("b".to_owned()));
    }
}

#[test]
fn no_server_is_chosen_when_none_is_known() {
    let rooms = vec![room("r1", "a", true, &[])];
    assert_eq!(choose_server(&vec![], &rooms), None);
}

#[test]
fn parse_bool_reads_only_true_and_false() {
    assert_eq!(parse_bool(&"true".to_owned()), Some(true));
    assert_eq!(parse_bool(&"false".to_owned()), Some(false));
    assert_eq!(parse_bool(&"True".to_owned()), None);
    assert_eq!(parse_bool(&"".to_owned()), None);
}

#[test]
fn rooms_list_filters_by_user_and_hibernation() {
    let rooms = vec![
        room("r1", "a", false, &["bob"]),
        room("r2", "a", true, &["bob", "carol"]),
        room("r3", "b", false, &["carol"]),
    ];
    assert_eq!(ids(&get_rooms_list(rooms.clone(), None, None)), vec!["r1", "r2", "r3"]);
    assert_eq!(ids(&get_rooms_list(rooms.clone(), Some("bob".to_owned()), None)), vec!["r1", "r2"]);
    assert_eq!(ids(&get_rooms_list(rooms.clone(), None, Some("true".to_owned()))), vec!["r1", "r3"]);
    assert_eq!(ids(&get_rooms_list(rooms.clone(), None, Some("yes".to_owned()))), vec!["r1", "r2", "r3"]);
    assert_eq!(
        ids(&get_rooms_list(rooms, Some("carol".to_owned()), Some("true".to_owned()))),
        vec!["r3"]
    );
}

#[test]
fn rooms_on_a_server_in_order() {
    let rooms = vec![room("r1", "a", false, &[]), room("r2", "b", false, &[]), room("r3", "a", true, &[])];
    assert_eq!(rooms_on_server(&rooms, &"a".to_owned()), vec!["r1".to_owned(), "r3".to_owned()]);
    assert!(rooms_on_server(&rooms, &"z".to_owned()).is_empty());
}

#[test]
fn a_restarted_server_loses_its_rooms() {
    let rooms = vec![room("r1", "a", false, &[]), room("r2", "b", false, &[])];
    let empty = ServerStatus { active_rooms: 0, hibernating_rooms: 0, max_rooms: 64, address: "a".to_owned() };
    assert_eq!(rooms_removed_by_announce(true, &empty, &rooms), vec!["r1".to_owned()]);
    assert!(rooms_removed_by_announce(false, &empty, &rooms).is_empty());
    let busy = ServerStatus { active_rooms: 1, hibernating_rooms: 0, max_rooms: 64, address: "a".to_owned() };
    assert!(rooms_removed_by_announce(true, &busy, &rooms).is_empty());
}

#[test]
fn server_addresses_from_external_ip() {
    assert_eq!(get_server("1.2.3.4"), "wss://1-2-3-4.roboscapeonlineservers.netsblox.org");
    assert_eq!(get_server("127.0.0.1"), "ws://127-0-0-1.roboscapeonlineservers.netsblox.org:5000");
    assert_eq!(get_local_api_server("1.2.3.4"), "https://1-2-3-4.roboscapeonlineservers.netsblox.org:3000");
    assert_eq!(get_local_api_server("127.0.0.1"), "http://127-0-0-1.roboscapeonlineservers.netsblox.org:3000");
}

#[test]
fn main_api_server_by_build() {
    assert_eq!(get_main_api_server(true), "http://127.0.0.1:5001");
    assert_eq!(get_main_api_server(false), "https://roboscapeonlineapi2.netsblox.org");
}

#[test]
fn server_room_listing_filters() {
    let rooms = vec![room("r1", "a", false, &["bob"]), room("r2", "a", true, &["carol"])];
    assert!(has_visitor(&rooms[0], &"bob".to_owned()));
    assert!(!has_visitor(&rooms[0], &"carol".to_owned()));
    assert_eq!(ids(&get_rooms(rooms.clone(), None, true)), vec!["r1", "r2"]);
    assert_eq!(ids(&get_rooms(rooms.clone(), None, false)), vec!["r1"]);
    assert_eq!(ids(&get_rooms(rooms, Some("carol".to_owned()), true)), vec!["r2"]);
}
