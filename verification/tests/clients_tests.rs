use roboscapesim::clients::{messages_from_entries, ClientsManager};
use roboscapesim::common::ClientMessage;

fn sorted<T: Ord>(mut v: Vec<T>) -> Vec<T> {
    v.sort();
    v
}

#[test]
fn new_manager_is_empty() {
    let m = ClientsManager::new();
    assert!(m.is_empty());
    assert!(m.usernames().is_empty());
    assert!(m.client_ids().is_empty());
}

#[test]
fn clients_are_filed_under_their_usernames() {
    let mut m = ClientsManager::new();
    m.add_client(&"alice".to_owned(), 1);
    m.add_client(&"alice".to_owned(), 2);
    m.add_client(&"bob".to_owned(), 3);
    assert!(!m.is_empty());
    assert_eq!(sorted(m.usernames()), vec!["alice".to_owned(), "bob".to_owned()]);
    assert_eq!(sorted(m.client_ids()), vec![1, 2, 3]);
    assert_eq!(m.username_of(2), Some("alice".to_owned()));
    assert_eq!(m.username_of(3), Some("bob".to_owned()));
    assert_eq!(m.username_of(4), None);
}

#[test]
fn join_then_leave_restores_the_room() {
    let mut m = ClientsManager::new();
    m.add_client(&"alice".to_owned(), 1);
    m.add_client(&"bob".to_owned(), 2);
    m.remove_client(&"bob".to_owned(), 2);
    assert_eq!(m.usernames(), vec!["alice".to_owned()]);
    m.remove_client(&"alice".to_owned(), 1);
    assert!(m.is_empty());
    // leaving twice changes nothing
    m.remove_client(&"alice".to_owned(), 1);
    assert!(m.is_empty());
}

#[test]
fn a_user_stays_while_one_client_remains() {
    let mut m = ClientsManager::new();
    m.add_client(&"alice".to_owned(), 1);
    m.add_client(&"alice".to_owned(), 2);
    m.remove_client(&"alice".to_owned(), 1);
    assert_eq!(m.usernames(), vec!["alice".to_owned()]);
    assert_eq!(m.client_ids(), vec![2]);
}

#[test]
fn disconnected_clients_are_dropped() {
    let mut m = ClientsManager::new();
    m.add_client(&"alice".to_owned(), 1);
    m.add_client(&"alice".to_owned(), 2);
    m.add_client(&"bob".to_owned(), 3);
    m.add_client(&"carol".to_owned(), 4);
    let left = m.remove_disconnected_clients(&vec![2, 4]);
    assert_eq!(sorted(left), vec![("alice".to_owned(), 1), ("bob".to_owned(), 3)]);
    assert_eq!(sorted(m.usernames()), vec!["alice".to_owned(), "carol".to_owned()]);
    assert_eq!(sorted(m.client_ids()), vec![2, 4]);
    assert!(m.remove_disconnected_clients(&vec![2, 4]).is_empty());
}

#[test]
fn messages_are_tagged_with_their_sender() {
    let mut m = ClientsManager::new();
    m.add_client(&"alice".to_owned(), 1);
    m.add_client(&"bob".to_owned(), 2);
    let mut inbox = vec![
        (2, vec![ClientMessage::ClaimRobot("r1".to_owned())]),
        (1, vec![ClientMessage::Heartbeat, ClientMessage::ResetAll]),
        (9, vec![ClientMessage::ResetAll]),
    ];
    let msgs = m.get_messages(&mut inbox);
    assert_eq!(msgs.len(), 3);
    let mut from_alice = msgs.iter().filter(|(_, u, id)| u == "alice" && *id == 1).map(|(msg, _, _)| msg);
    assert!(matches!(from_alice.next(), Some(ClientMessage::Heartbeat)));
    assert!(matches!(from_alice.next(), Some(ClientMessage::ResetAll)));
    assert!(from_alice.next().is_none());
    let from_bob: Vec<_> = msgs.iter().filter(|(_, u, id)| u == "bob" && *id == 2).collect();
    assert_eq!(from_bob.len(), 1);
    assert!(matches!(&from_bob[0].0, ClientMessage::ClaimRobot(r) if r == "r1"));
}

#[test]
fn messages_follow_the_listed_order() {
    let entries = vec![("bob".to_owned(), vec![2, 3]), ("alice".to_owned(), vec![1])];
    let mut inbox = vec![
        (1, vec![ClientMessage::ResetAll]),
        (3, vec![ClientMessage::Heartbeat]),
        (2, vec![ClientMessage::EncryptRobot("x".to_owned())]),
    ];
    let msgs = messages_from_entries(&entries, &mut inbox);
    let senders: Vec<(String, u128)> = msgs.iter().map(|(_, u, id)| (u.clone(), *id)).collect();
    assert_eq!(senders, vec![("bob".to_owned(), 2), ("bob".to_owned(), 3), ("alice".to_owned(), 1)]);
    assert!(matches!(&msgs[0].0, ClientMessage::EncryptRobot(r) if r == "x"));
}

#[test]
fn taking_messages_empties_the_room_queues() {
    let mut m = ClientsManager::new();
    m.add_client(&"alice".to_owned(), 1);
    m.add_client(&"bob".to_owned(), 2);
    let mut inbox = vec![
        (1, vec![ClientMessage::Heartbeat]),
        (9, vec![ClientMessage::ResetAll]),
        (2, vec![ClientMessage::ResetAll]),
    ];
    assert_eq!(m.get_messages(&mut inbox).len(), 2);
    assert!(inbox[0].1.is_empty());
    assert_eq!(inbox[1].1.len(), 1);
    assert!(inbox[2].1.is_empty());
    assert!(m.get_messages(&mut inbox).is_empty());
    assert_eq!(inbox.iter().map(|(id, _)| *id).collect::<Vec<_>>(), vec![1, 9, 2]);
}

#[test]
fn a_client_under_two_users_is_read_once() {
    let entries = vec![("alice".to_owned(), vec![1]), ("bob".to_owned(), vec![1])];
    let mut inbox = vec![(1, vec![ClientMessage::Heartbeat])];
    let msgs = messages_from_entries(&entries, &mut inbox);
    assert_eq!(msgs.len(), 1);
    assert_eq!(msgs[0].1, "alice");
}
