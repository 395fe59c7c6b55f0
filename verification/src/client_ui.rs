use vstd::prelude::*;
use vstd::string::*;

use crate::scenarios::is_unicode_whitespace;
use crate::util::owned;

verus! {

broadcast use vstd::string::group_string_axioms;

/// Number of whitespace characters that a text starts with.
pub open spec fn leading_ws(s: Seq<char>) -> nat
    decreases s.len(),
{
    if s.len() > 0 && is_unicode_whitespace(s[0]) {
        1 + leading_ws(s.drop_first())
    } else {
        0
    }
}

/// Number of whitespace characters that a text ends with.
pub open spec fn trailing_ws(s: Seq<char>) -> nat
    decreases s.len(),
{
    if s.len() > 0 && is_unicode_whitespace(s.last()) {
        1 + trailing_ws(s.drop_last())
    } else {
        0
    }
}

/// A text without its leading and trailing whitespace.
pub open spec fn trimmed(s: Seq<char>) -> Seq<char> {
    let t = s.skip(leading_ws(s) as int);
    t.take(t.len() - trailing_ws(t))
}

/// `str::trim`: the text without leading and trailing whitespace, whitespace
/// being the characters with the Unicode `White_Space` property.
#[verifier::external_body]
fn trim(s: &str) -> (r: &str)
    ensures
        r@ == trimmed(s@),
{
    s.trim()
}

/// The robot chosen in the robot menu, from the menu's value: none when the
/// value is blank, else the value without surrounding whitespace.
pub fn get_selected_robot(menu_value: &str) -> (r: Option<String>)
    ensures
        match r {
            Some(id) => trimmed(menu_value@).len() > 0 && id@ == trimmed(menu_value@),
            None => trimmed(menu_value@).len() == 0,
        },
{
    let value = trim(menu_value);
    if value.unicode_len() == 0 {
        None
    } else {
        Some(owned(value))
    }
}

/// Who has claimed a robot, as the client knows it: the claimant filed for
/// the robot, or `None` when there is none.
pub open spec fn claimant_text(claims: Seq<(String, String)>, robot: Seq<char>) -> Seq<char>
    decreases claims.len(),
{
    if claims.len() == 0 {
        "None"@
    } else if claims[0].0@ == robot {
        claims[0].1@
    } else {
        claimant_text(claims.drop_first(), robot)
    }
}

fn claimant(claims: &Vec<(String, String)>, robot: &String) -> (r: String)
    ensures
        r@ == claimant_text(claims@, robot@),
{
    let mut i: usize = 0;
    assert(claims@.skip(0) =~= claims@);
    while i < claims.len()
        invariant
            i <= claims.len(),
            claimant_text(claims@, robot@) == claimant_text(claims@.skip(i as int), robot@),
        decreases claims.len() - i,
    {
        assert(claims@.skip(i as int).drop_first() =~= claims@.skip(i + 1));
        if claims[i].0 == *robot {
            return claims[i].1.clone();
        }
        i += 1;
    }
    owned("None")
}

/// How the robot controls show: hidden when no robot is chosen; otherwise
/// shown, with the reset button and an `Unclaim` label when the user holds the
/// chosen robot, and a `Claim` label when not.
#[derive(Debug, Clone, Copy, PartialEq, Eq, Structural)]
pub enum RobotPanel {
    Hidden,
    Shown { holds_claim: bool },
}

/// The robot controls for the chosen robot, the known claims and the user.
pub fn robot_buttons(selected: &Option<String>, claims: &Vec<(String, String)>, username: &String) -> (panel: RobotPanel)
    ensures
        panel == match selected {
            None => RobotPanel::Hidden,
            Some(robot) => RobotPanel::Shown { holds_claim: claimant_text(claims@, robot@) == username@ },
        },
{
    match selected {
        None => RobotPanel::Hidden,
        Some(robot) => {
            let c = claimant(claims, robot);
            RobotPanel::Shown { holds_claim: c == *username }
        },
    }
}

/// The claim line shown for the chosen robot (no robot reads as the empty name).
pub fn claim_text(selected: &Option<String>, claims: &Vec<(String, String)>) -> (text: String)
    ensures
        text@ == "Claimed by: "@ + claimant_text(
            claims@,
            match selected {
                Some(robot) => robot@,
                None => Seq::empty(),
            },
        ),
{
    let robot = match selected {
        Some(robot) => robot.clone(),
        None => String::new(),
    };
    let c = claimant(claims, &robot);
    let mut text = owned("Claimed by: ");
    text.append(c.as_str());
    text
}

} // verus!
