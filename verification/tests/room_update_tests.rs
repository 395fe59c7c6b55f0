use roboscapesim::common::ClientMessage;
use roboscapesim::room::RobotClaim;
use roboscapesim::room_update::{
    handle_client_message, hibernation_step, plan_resets, state_update_due, trigger_events, ClientAction,
    HibernationChange, ResetPlan, StateUpdate,
};

fn robots() -> Vec<(String, RobotClaim)> {
    vec![
        ("r1".to_owned(), RobotClaim { claimable: true, claimed_by: None }),
        ("r2".to_owned(), RobotClaim { claimable: false, claimed_by: None }),
        ("r3".to_owned(), RobotClaim { claimable: true, claimed_by: Some("bob".to_owned()) }),
    ]
}

fn claimant(robots: &[(String, RobotClaim)], id: &str) -> Option<String> {
    robots.iter().find(|(n, _)| n == id).and_then(|(_, c)| c.claimed_by.clone())
}

#[test]
fn reset_all_is_always_passed_on() {
    let mut rs = robots();
    let alice = "alice".to_owned();
    assert_eq!(handle_client_message(ClientMessage::ResetAll, &mut rs, Some(&alice), &alice), ClientAction::ResetAll);
}

#[test]
fn robot_reset_needs_authorization() {
    let mut rs = robots();
    let alice = "alice".to_owned();
    let bob = "bob".to_owned();
    assert_eq!(
        handle_client_message(ClientMessage::ResetRobot("r1".to_owned()), &mut rs, Some(&alice), &alice),
        ClientAction::ResetRobot("r1".to_owned())
    );
    assert_eq!(
        handle_client_message(ClientMessage::ResetRobot("r2".to_owned()), &mut rs, Some(&alice), &alice),
        ClientAction::Nothing
    );
    assert_eq!(
        handle_client_message(ClientMessage::ResetRobot("r3".to_owned()), &mut rs, Some(&alice), &alice),
        ClientAction::Nothing
    );
    assert_eq!(
        handle_client_message(ClientMessage::ResetRobot("r3".to_owned()), &mut rs, Some(&bob), &bob),
        ClientAction::ResetRobot("r3".to_owned())
    );
    // a robot that does not exist is open to all
    assert_eq!(
        handle_client_message(ClientMessage::ResetRobot("zz".to_owned()), &mut rs, Some(&alice), &alice),
        ClientAction::ResetRobot("zz".to_owned())
    );
}

#[test]
fn claiming_and_releasing_through_messages() {
    let mut rs = robots();
    let alice = "alice".to_owned();
    let bob = "bob".to_owned();
    assert_eq!(
        handle_client_message(ClientMessage::ClaimRobot("r1".to_owned()), &mut rs, Some(&alice), &alice),
        ClientAction::RobotClaimed("r1".to_owned(), "alice".to_owned())
    );
    assert_eq!(claimant(&rs, "r1"), Some("alice".to_owned()));
    assert_eq!(
        handle_client_message(ClientMessage::ClaimRobot("r1".to_owned()), &mut rs, Some(&bob), &bob),
        ClientAction::Nothing
    );
    assert_eq!(
        handle_client_message(ClientMessage::UnclaimRobot("r1".to_owned()), &mut rs, Some(&bob), &bob),
        ClientAction::Nothing
    );
    assert_eq!(
        handle_client_message(ClientMessage::UnclaimRobot("r1".to_owned()), &mut rs, Some(&alice), &alice),
        ClientAction::RobotReleased("r1".to_owned())
    );
    assert_eq!(claimant(&rs, "r1"), None);
    assert_eq!(
        handle_client_message(ClientMessage::ClaimRobot("r2".to_owned()), &mut rs, Some(&alice), &alice),
        ClientAction::Nothing
    );
    assert_eq!(
        handle_client_message(ClientMessage::ClaimRobot("zz".to_owned()), &mut rs, Some(&alice), &alice),
        ClientAction::Nothing
    );
    assert_eq!(rs.len(), 3);
}

#[test]
fn encryption_needs_an_existing_authorized_robot() {
    let mut rs = robots();
    let alice = "alice".to_owned();
    assert_eq!(
        handle_client_message(ClientMessage::EncryptRobot("r1".to_owned()), &mut rs, Some(&alice), &alice),
        ClientAction::EncryptRobot("r1".to_owned())
    );
    assert_eq!(
        handle_client_message(ClientMessage::EncryptRobot("zz".to_owned()), &mut rs, Some(&alice), &alice),
        ClientAction::Nothing
    );
    assert_eq!(
        handle_client_message(ClientMessage::EncryptRobot("r3".to_owned()), &mut rs, Some(&alice), &alice),
        ClientAction::Nothing
    );
}

#[test]
fn heartbeats_and_joins_do_nothing() {
    let mut rs = robots();
    let alice = "alice".to_owned();
    assert_eq!(handle_client_message(ClientMessage::Heartbeat, &mut rs, Some(&alice), &alice), ClientAction::Nothing);
    assert_eq!(
        handle_client_message(
            ClientMessage::JoinRoom("R".to_owned(), "alice".to_owned(), None),
            &mut rs,
            Some(&alice),
            &alice
        ),
        ClientAction::Nothing
    );
}

#[test]
fn reset_plans() {
    let actions = vec![
        ClientAction::ResetRobot("a".to_owned()),
        ClientAction::Nothing,
        ClientAction::ResetRobot("b".to_owned()),
    ];
    assert_eq!(plan_resets(&actions), ResetPlan::Robots(vec!["a".to_owned(), "b".to_owned()]));
    let actions = vec![ClientAction::ResetRobot("a".to_owned()), ClientAction::ResetAll];
    assert_eq!(plan_resets(&actions), ResetPlan::All);
    assert_eq!(plan_resets(&vec![]), ResetPlan::Robots(vec![]));
}

#[test]
fn trigger_enter_and_exit() {
    let before = vec!["a".to_owned(), "b".to_owned(), "c".to_owned()];
    let now = vec!["c".to_owned(), "d".to_owned(), "a".to_owned()];
    let (exits, enters) = trigger_events(&before, &now);
    assert_eq!(exits, vec!["b".to_owned()]);
    assert_eq!(enters, vec!["d".to_owned()]);
    let (exits, enters) = trigger_events(&now, &now);
    assert!(exits.is_empty() && enters.is_empty());
}

#[test]
fn state_update_schedule() {
    assert_eq!(state_update_due(1000, 1000 - 59, 120_000_001), StateUpdate::Incremental);
    assert_eq!(state_update_due(1000, 1000 - 59, 120_000_000), StateUpdate::Nothing);
    assert_eq!(state_update_due(1000, 1000 - 60, 0), StateUpdate::Full);
    assert_eq!(state_update_due(1000, 0, 0), StateUpdate::Full);
    assert_eq!(state_update_due(i64::MIN, i64::MAX, 500_000_000), StateUpdate::Incremental);
}

#[test]
fn hibernation_follows_the_clients() {
    assert_eq!(hibernation_step(false, true), HibernationChange::Start);
    assert_eq!(hibernation_step(true, false), HibernationChange::End);
    assert_eq!(hibernation_step(true, true), HibernationChange::Stay);
    assert_eq!(hibernation_step(false, false), HibernationChange::Stay);
}
