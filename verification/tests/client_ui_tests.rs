use roboscapesim::client_ui::{claim_text, get_selected_robot, robot_buttons, RobotPanel};

fn claims() -> Vec<(String, String)> {
    vec![("r1".to_owned(), "alice".to_owned()), ("r2".to_owned(), "bob".to_owned())]
}

#[test]
fn selected_robot_from_menu_value() {
    assert_eq!(get_selected_robot(""), None);
    assert_eq!(get_selected_robot("  \t"), None);
    assert_eq!(get_selected_robot(" r1 \n"), Some("r1".to_owned()));
    assert_eq!(get_selected_robot("r 2"), Some("r 2".to_owned()));
}

#[test]
fn robot_controls_follow_the_claim() {
    let alice = "alice".to_owned();
    assert_eq!(robot_buttons(&None, &claims(), &alice), RobotPanel::Hidden);
    assert_eq!(robot_buttons(&Some("r1".to_owned()), &claims(), &alice), RobotPanel::Shown { holds_claim: true });
    assert_eq!(robot_buttons(&Some("r2".to_owned()), &claims(), &alice), RobotPanel::Shown { holds_claim: false });
    assert_eq!(robot_buttons(&Some("r3".to_owned()), &claims(), &alice), RobotPanel::Shown { holds_claim: false });
}

#[test]
fn claim_line_names_the_claimant() {
    assert_eq!(claim_text(&Some("r2".to_owned()), &claims()), "Claimed by: bob");
    assert_eq!(claim_text(&Some("r9".to_owned()), &claims()), "Claimed by: None");
    assert_eq!(claim_text(&None, &claims()), "Claimed by: None");
}
