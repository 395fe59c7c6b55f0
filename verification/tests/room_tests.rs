use roboscapesim::room::{
    check_join, claim_robot, enqueue_outgoing, is_authorized, release_if_absent, unclaim_robot, ClaimUpdate,
    OutgoingKind, RobotClaim,
};

fn robot(claimable: bool, claimed_by: Option<&str>) -> RobotClaim {
    RobotClaim { claimable, claimed_by: claimed_by.map(|s| s.to_owned()) }
}

#[test]
fn joining_a_missing_room_fails() {
    assert_eq!(
        check_join(false, &None, &"".to_owned(), &"RoomABCDE".to_owned()),
        Err("Room RoomABCDE does not exist!".to_owned())
    );
}

#[test]
fn joining_needs_the_room_password() {
    let pw = Some("secret".to_owned());
    assert_eq!(check_join(true, &pw, &"guess".to_owned(), &"R".to_owned()), Err("Wrong password!".to_owned()));
    assert_eq!(check_join(true, &pw, &"secret".to_owned(), &"R".to_owned()), Ok(()));
    assert_eq!(check_join(true, &None, &"anything".to_owned(), &"R".to_owned()), Ok(()));
}

#[test]
fn authorization_rules() {
    let alice = "alice".to_owned();
    let bob = "bob".to_owned();
    assert!(is_authorized(None, Some(&alice)));
    assert!(is_authorized(Some(&robot(true, None)), Some(&alice)));
    assert!(!is_authorized(Some(&robot(false, None)), Some(&alice)));
    assert!(is_authorized(Some(&robot(true, Some("alice"))), Some(&alice)));
    assert!(!is_authorized(Some(&robot(true, Some("alice"))), Some(&bob)));
    assert!(is_authorized(Some(&robot(true, Some("alice"))), None));
}

#[test]
fn claim_then_others_are_locked_out() {
    let alice = "alice".to_owned();
    let bob = "bob".to_owned();
    let mut r = robot(true, None);
    assert_eq!(claim_robot(&mut r, Some(&alice), &alice), ClaimUpdate::ClaimedBy("alice".to_owned()));
    assert_eq!(r.claimed_by, Some("alice".to_owned()));
    assert!(!is_authorized(Some(&r), Some(&bob)));
    assert_eq!(claim_robot(&mut r, Some(&bob), &bob), ClaimUpdate::Unchanged);
    assert_eq!(unclaim_robot(&mut r, Some(&bob), &bob), ClaimUpdate::Unchanged);
    assert_eq!(r.claimed_by, Some("alice".to_owned()));
    assert_eq!(unclaim_robot(&mut r, Some(&alice), &alice), ClaimUpdate::Released);
    assert_eq!(r.claimed_by, None);
}

#[test]
fn unclaimable_robots_stay_unclaimed() {
    let alice = "alice".to_owned();
    let mut r = robot(false, None);
    assert_eq!(claim_robot(&mut r, Some(&alice), &alice), ClaimUpdate::Unchanged);
    assert_eq!(r.claimed_by, None);
    assert!(!r.claimable);
}

#[test]
fn claims_of_absent_users_are_released() {
    let mut r = robot(true, Some("alice"));
    assert_eq!(release_if_absent(&mut r, true), ClaimUpdate::Unchanged);
    assert_eq!(r.claimed_by, Some("alice".to_owned()));
    assert_eq!(release_if_absent(&mut r, false), ClaimUpdate::Released);
    assert_eq!(r.claimed_by, None);
    assert_eq!(release_if_absent(&mut r, false), ClaimUpdate::Unchanged);
}

#[test]
fn incremental_updates_replace_the_stale_one() {
    let mut q: Vec<(OutgoingKind, u32)> = Vec::new();
    enqueue_outgoing(&mut q, OutgoingKind::IncrementalUpdate, 1);
    enqueue_outgoing(&mut q, OutgoingKind::Other, 2);
    enqueue_outgoing(&mut q, OutgoingKind::IncrementalUpdate, 3);
    assert_eq!(q, vec![(OutgoingKind::Other, 2), (OutgoingKind::IncrementalUpdate, 3)]);
    enqueue_outgoing(&mut q, OutgoingKind::FullUpdate, 4);
    enqueue_outgoing(&mut q, OutgoingKind::IncrementalUpdate, 5);
    assert_eq!(
        q,
        vec![(OutgoingKind::Other, 2), (OutgoingKind::FullUpdate, 4), (OutgoingKind::IncrementalUpdate, 5)]
    );
    let incremental = q.iter().filter(|(k, _)| *k == OutgoingKind::IncrementalUpdate).count();
    assert_eq!(incremental, 1);
}

#[test]
fn other_messages_are_always_appended() {
    let mut q: Vec<(OutgoingKind, u32)> = Vec::new();
    enqueue_outgoing(&mut q, OutgoingKind::Other, 1);
    enqueue_outgoing(&mut q, OutgoingKind::Other, 2);
    enqueue_outgoing(&mut q, OutgoingKind::FullUpdate, 3);
    enqueue_outgoing(&mut q, OutgoingKind::FullUpdate, 4);
    assert_eq!(q.len(), 4);
    assert_eq!(q[3], (OutgoingKind::FullUpdate, 4));
}
