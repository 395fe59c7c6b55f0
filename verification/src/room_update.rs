use vstd::prelude::*;

use crate::common::ClientMessage;
use crate::util::lemma_push_contains;
use crate::room::{claim_robot, is_authorized, spec_is_authorized, unclaim_robot, ClaimUpdate, RobotClaim};

verus! {

broadcast use vstd::string::group_string_axioms;

/// What the room does in answer to one message from a client.
#[derive(Debug, PartialEq, Eq)]
pub enum ClientAction {
    /// Nothing to do
    Nothing,
    /// Reset the whole room
    ResetAll,
    /// Reset one robot
    ResetRobot(String),
    /// Tell the clients that a robot is now claimed by a user
    RobotClaimed(String, String),
    /// Tell the clients that a robot is no longer claimed
    RobotReleased(String),
    /// Ask a robot to change its encryption
    EncryptRobot(String),
}

/// Index of the first robot filed under `id`.
pub open spec fn find_robot(robots: Seq<(String, RobotClaim)>, id: Seq<char>) -> Option<int>
    decreases robots.len(),
{
    if robots.len() == 0 {
        None
    } else if robots[0].0@ == id {
        Some(0)
    } else {
        match find_robot(robots.drop_first(), id) {
            Some(i) => Some(i + 1),
            None => None,
        }
    }
}

/// The claim state of the robot filed under `id`, if there is one.
pub open spec fn robot_at(robots: Seq<(String, RobotClaim)>, id: Seq<char>) -> Option<RobotClaim> {
    match find_robot(robots, id) {
        Some(i) => Some(robots[i].1),
        None => None,
    }
}

/// How the room answers a client's message: what it does, and the robots'
/// claims afterwards. `sender` is the username under which the sending client
/// is in the room, if it is; `username` is the user the message came from.
pub open spec fn spec_handle_client_message(
    msg: ClientMessage,
    robots: Seq<(String, RobotClaim)>,
    sender: Option<String>,
    username: String,
) -> (ClientAction, Seq<(String, RobotClaim)>) {
    match msg {
        ClientMessage::ResetAll => (ClientAction::ResetAll, robots),
        ClientMessage::ResetRobot(id) => (
            if spec_is_authorized(robot_at(robots, id@), sender) {
                ClientAction::ResetRobot(id)
            } else {
                ClientAction::Nothing
            },
            robots,
        ),
        ClientMessage::ClaimRobot(id) => match find_robot(robots, id@) {
            Some(i) => {
                let r = robots[i].1;
                if spec_is_authorized(Some(r), sender) && r.claimed_by is None {
                    (
                        ClientAction::RobotClaimed(id, username),
                        robots.update(
                            i,
                            (robots[i].0, RobotClaim { claimable: r.claimable, claimed_by: Some(username) }),
                        ),
                    )
                } else {
                    (ClientAction::Nothing, robots)
                }
            },
            None => (ClientAction::Nothing, robots),
        },
        ClientMessage::UnclaimRobot(id) => match find_robot(robots, id@) {
            Some(i) => {
                let r = robots[i].1;
                if spec_is_authorized(Some(r), sender) && (r.claimed_by matches Some(c) && c@ == username@) {
                    (
                        ClientAction::RobotReleased(id),
                        robots.update(i, (robots[i].0, RobotClaim { claimable: r.claimable, claimed_by: None })),
                    )
                } else {
                    (ClientAction::Nothing, robots)
                }
            },
            None => (ClientAction::Nothing, robots),
        },
        ClientMessage::EncryptRobot(id) => (
            if find_robot(robots, id@) is Some && spec_is_authorized(robot_at(robots, id@), sender) {
                ClientAction::EncryptRobot(id)
            } else {
                ClientAction::Nothing
            },
            robots,
        ),
        _ => (ClientAction::Nothing, robots),
    }
}

fn index_of_robot(robots: &Vec<(String, RobotClaim)>, id: &String) -> (r: Option<usize>)
    ensures
        match r {
            Some(i) => find_robot(robots@, id@) == Some(i as int) && i < robots.len(),
            None => find_robot(robots@, id@) is None,
        },
{
    let mut i: usize = 0;
    while i < robots.len()
        invariant
            i <= robots.len(),
            forall|j: int| 0 <= j < i ==> #[trigger] robots@[j].0@ != id@,
        decreases robots.len() - i,
    {
        if robots[i].0 == *id {
            proof {
                lemma_find_robot_first(robots@, id@, i as int);
            }
            return Some(i);
        }
        i += 1;
    }
    proof {
        lemma_find_robot_none(robots@, id@);
    }
    None
}

proof fn lemma_find_robot_first(robots: Seq<(String, RobotClaim)>, id: Seq<char>, i: int)
    requires
        0 <= i < robots.len(),
        robots[i].0@ == id,
        forall|j: int| 0 <= j < i ==> #[trigger] robots[j].0@ != id,
    ensures
        find_robot(robots, id) == Some(i),
    decreases i,
{
    if i > 0 {
        let rest = robots.drop_first();
        assert forall|j: int| 0 <= j < i - 1 implies #[trigger] rest[j].0@ != id by {
            assert(rest[j] == robots[j + 1]);
        }
        lemma_find_robot_first(rest, id, i - 1);
    }
}

proof fn lemma_find_robot_none(robots: Seq<(String, RobotClaim)>, id: Seq<char>)
    requires
        forall|j: int| 0 <= j < robots.len() ==> #[trigger] robots[j].0@ != id,
    ensures
        find_robot(robots, id) is None,
    decreases robots.len(),
{
    if robots.len() > 0 {
        let rest = robots.drop_first();
        assert forall|j: int| 0 <= j < rest.len() implies #[trigger] rest[j].0@ != id by {
            assert(rest[j] == robots[j + 1]);
        }
        lemma_find_robot_none(rest, id);
    }
}

proof fn lemma_find_robot_bound(robots: Seq<(String, RobotClaim)>, id: Seq<char>)
    ensures
        find_robot(robots, id) matches Some(i) ==> 0 <= i < robots.len() && robots[i].0@ == id,
    decreases robots.len(),
{
    if robots.len() > 0 {
        lemma_find_robot_bound(robots.drop_first(), id);
    }
}

fn copy_claim(c: &RobotClaim) -> (r: RobotClaim)
    ensures
        r == *c,
{
    RobotClaim {
        claimable: c.claimable,
        claimed_by: match &c.claimed_by {
            Some(u) => Some(u.clone()),
            None => None,
        },
    }
}

/// Answer one message from a client of the room: `sender` is the username
/// under which the client is in the room, if it is, and `username` is the
/// user the message came from. Claims change in `robots`; what else is to be
/// done is returned.
pub fn handle_client_message(
    msg: ClientMessage,
    robots: &mut Vec<(String, RobotClaim)>,
    sender: Option<&String>,
    username: &String,
) -> (action: ClientAction)
    ensures
        (action, final(robots)@) == spec_handle_client_message(
            msg,
            old(robots)@,
            match sender {
                Some(s) => Some(*s),
                None => None,
            },
            *username,
        ),
{
    match msg {
        ClientMessage::ResetAll => ClientAction::ResetAll,
        ClientMessage::ResetRobot(id) => {
            let found = index_of_robot(robots, &id);
            proof {
                lemma_find_robot_bound(robots@, id@);
            }
            let ok = match found {
                Some(i) => is_authorized(Some(&robots[i].1), sender),
                None => is_authorized(None, sender),
            };
            if ok {
                ClientAction::ResetRobot(id)
            } else {
                ClientAction::Nothing
            }
        },
        ClientMessage::ClaimRobot(id) => {
            proof {
                lemma_find_robot_bound(robots@, id@);
            }
            match index_of_robot(robots, &id) {
                None => ClientAction::Nothing,
                Some(i) => {
                    let mut claim = copy_claim(&robots[i].1);
                    match claim_robot(&mut claim, sender, username) {
                        ClaimUpdate::ClaimedBy(_) => {
                            let name = robots[i].0.clone();
                            robots.set(i, (name, claim));
                            ClientAction::RobotClaimed(id, username.clone())
                        },
                        _ => ClientAction::Nothing,
                    }
                },
            }
        },
        ClientMessage::UnclaimRobot(id) => {
            proof {
                lemma_find_robot_bound(robots@, id@);
            }
            match index_of_robot(robots, &id) {
                None => ClientAction::Nothing,
                Some(i) => {
                    let mut claim = copy_claim(&robots[i].1);
                    match unclaim_robot(&mut claim, sender, username) {
                        ClaimUpdate::Released => {
                            let name = robots[i].0.clone();
                            robots.set(i, (name, claim));
                            ClientAction::RobotReleased(id)
                        },
                        _ => ClientAction::Nothing,
                    }
                },
            }
        },
        ClientMessage::EncryptRobot(id) => {
            proof {
                lemma_find_robot_bound(robots@, id@);
            }
            match index_of_robot(robots, &id) {
                None => ClientAction::Nothing,
                Some(i) => {
                    if is_authorized(Some(&robots[i].1), sender) {
                        ClientAction::EncryptRobot(id)
                    } else {
                        ClientAction::Nothing
                    }
                },
            }
        },
        _ => ClientAction::Nothing,
    }
}

/// What the room resets after a round of client messages.
#[derive(Debug, PartialEq, Eq)]
pub enum ResetPlan {
    /// Reset the whole room
    All,
    /// Reset these robots, in order
    Robots(Vec<String>),
}

/// Whether some action asks for the whole room to be reset.
pub open spec fn any_reset_all(actions: Seq<ClientAction>) -> bool {
    exists|i: int| 0 <= i < actions.len() && actions[i] is ResetAll
}

/// The robots that the actions ask to reset, in order.
pub open spec fn robot_resets(actions: Seq<ClientAction>) -> Seq<String>
    decreases actions.len(),
{
    if actions.len() == 0 {
        Seq::empty()
    } else {
        robot_resets(actions.drop_last()) + match actions.last() {
            ClientAction::ResetRobot(id) => seq![id],
            _ => Seq::empty(),
        }
    }
}

/// After a round of client messages the room is reset as a whole if any of
/// them asked for it; otherwise each robot asked for is reset.
pub fn plan_resets(actions: &Vec<ClientAction>) -> (plan: ResetPlan)
    ensures
        match plan {
            ResetPlan::All => any_reset_all(actions@),
            ResetPlan::Robots(ids) => !any_reset_all(actions@) && ids@ == robot_resets(actions@),
        },
{
    let mut ids: Vec<String> = Vec::new();
    let mut all = false;
    let mut i: usize = 0;
    while i < actions.len()
        invariant
            i <= actions.len(),
            all == any_reset_all(actions@.take(i as int)),
            ids@ == robot_resets(actions@.take(i as int)),
        decreases actions.len() - i,
    {
        let ghost prefix = actions@.take(i as int);
        let ghost next = actions@.take(i + 1);
        assert(next.drop_last() =~= prefix);
        assert(next.last() == actions@[i as int]);
        match &actions[i] {
            ClientAction::ResetAll => {
                all = true;
                assert(next[i as int] is ResetAll);
            },
            ClientAction::ResetRobot(id) => {
                ids.push(id.clone());
                assert(ids@ =~= robot_resets(next));
            },
            _ => {},
        }
        proof {
            if !(actions@[i as int] is ResetAll) {
                assert(any_reset_all(next) == any_reset_all(prefix)) by {
                    if any_reset_all(next) {
                        let j = choose|j: int| 0 <= j < next.len() && next[j] is ResetAll;
                        assert(j < i);
                        assert(prefix[j] == next[j]);
                    }
                    if any_reset_all(prefix) {
                        let j = choose|j: int| 0 <= j < prefix.len() && prefix[j] is ResetAll;
                        assert(next[j] == prefix[j]);
                    }
                }
            }
            if !(actions@[i as int] is ResetRobot) {
                assert(ids@ =~= robot_resets(next));
            }
        }
        i += 1;
    }
    assert(actions@.take(actions.len() as int) =~= actions@);
    if all {
        ResetPlan::All
    } else {
        ResetPlan::Robots(ids)
    }
}

/// The items of `a` that `b` lacks, in order.
pub open spec fn not_in<A>(a: Seq<A>, b: Seq<A>) -> Seq<A>
    decreases a.len(),
{
    if a.len() == 0 {
        Seq::empty()
    } else if b.contains(a.last()) {
        not_in(a.drop_last(), b)
    } else {
        not_in(a.drop_last(), b).push(a.last())
    }
}

/// The texts of a list of strings.
pub open spec fn texts(v: Seq<String>) -> Seq<Seq<char>> {
    v.map_values(|s: String| s@)
}

fn contains_text(list: &Vec<String>, s: &String) -> (r: bool)
    ensures
        r == texts(list@).contains(s@),
{
    let mut i: usize = 0;
    while i < list.len()
        invariant
            i <= list.len(),
            forall|j: int| 0 <= j < i ==> #[trigger] list@[j]@ != s@,
        decreases list.len() - i,
    {
        if list[i] == *s {
            assert(texts(list@)[i as int] == s@);
            return true;
        }
        i += 1;
    }
    proof {
        if texts(list@).contains(s@) {
            let j = choose|j: int| 0 <= j < texts(list@).len() && texts(list@)[j] == s@;
            assert(list@[j]@ == s@);
        }
    }
    false
}

fn missing_from(a: &Vec<String>, b: &Vec<String>) -> (r: Vec<String>)
    ensures
        texts(r@) == not_in(texts(a@), texts(b@)),
{
    let mut r: Vec<String> = Vec::new();
    let mut i: usize = 0;
    while i < a.len()
        invariant
            i <= a.len(),
            texts(r@) == not_in(texts(a@.take(i as int)), texts(b@)),
        decreases a.len() - i,
    {
        assert(texts(a@.take(i + 1)).drop_last() =~= texts(a@.take(i as int)));
        assert(texts(a@.take(i + 1)).last() == a@[i as int]@);
        if !contains_text(b, &a[i]) {
            let ghost before = r@;
            r.push(a[i].clone());
            assert(texts(r@) =~= texts(before).push(a@[i as int]@));
        }
        i += 1;
    }
    assert(a@.take(a.len() as int) =~= a@);
    r
}

/// The trigger events of one step: the entities that were in the trigger and
/// left it, and those that were not and entered it.
pub fn trigger_events(inside_before: &Vec<String>, inside_now: &Vec<String>) -> (events: (Vec<String>, Vec<String>))
    ensures
        texts(events.0@) == not_in(texts(inside_before@), texts(inside_now@)),
        texts(events.1@) == not_in(texts(inside_now@), texts(inside_before@)),
{
    (missing_from(inside_before, inside_now), missing_from(inside_now, inside_before))
}

/// An item is missing from `b` exactly when `a` has it and `b` does not.
pub proof fn lemma_not_in_member<A>(a: Seq<A>, b: Seq<A>, x: A)
    ensures
        not_in(a, b).contains(x) <==> a.contains(x) && !b.contains(x),
    decreases a.len(),
{
    if a.len() > 0 {
        let init = a.drop_last();
        lemma_not_in_member(init, b, x);
        assert(init.push(a.last()) =~= a);
        lemma_push_contains(init, a.last(), x);
        lemma_push_contains(not_in(init, b), a.last(), x);
    }
}

/// The entities inside a trigger now are those inside before, less the ones
/// that left, with the ones that entered; no entity both leaves and enters.
pub proof fn lemma_trigger_events_account_for_change(before: Seq<Seq<char>>, now: Seq<Seq<char>>)
    ensures
        before.to_set().difference(not_in(before, now).to_set()).union(not_in(now, before).to_set())
            == now.to_set(),
        not_in(before, now).to_set().disjoint(not_in(now, before).to_set()),
{
    assert forall|x: Seq<char>| #[trigger] now.to_set().contains(x) == before.to_set().difference(
        not_in(before, now).to_set(),
    ).union(not_in(now, before).to_set()).contains(x) by {
        lemma_not_in_member(before, now, x);
        lemma_not_in_member(now, before, x);
    }
    assert(before.to_set().difference(not_in(before, now).to_set()).union(not_in(now, before).to_set())
        =~= now.to_set());
    assert forall|x: Seq<char>| !(#[trigger] not_in(before, now).to_set().contains(x) && not_in(
        now,
        before,
    ).to_set().contains(x)) by {
        lemma_not_in_member(before, now, x);
        lemma_not_in_member(now, before, x);
    }
}

/// Which state update the room sends its clients in one step.
#[derive(Debug, Clone, Copy, PartialEq, Eq, Structural)]
pub enum StateUpdate {
    /// Send every object
    Full,
    /// Send the objects that changed
    Incremental,
    /// Send nothing
    Nothing,
}

/// A full update goes out once a minute has passed since the last one;
/// between them, an incremental update goes out when more than 120 ms have
/// passed since the last update of either kind.
pub open spec fn spec_state_update(now_secs: int, last_full_secs: int, since_last_update_ns: int) -> StateUpdate {
    if now_secs - last_full_secs < 60 {
        if since_last_update_ns > 120_000_000 {
            StateUpdate::Incremental
        } else {
            StateUpdate::Nothing
        }
    } else {
        StateUpdate::Full
    }
}

/// Decide the state update of one step, from the time in seconds, the time
/// of the last full update in seconds, and the nanoseconds since the last
/// update was sent.
pub fn state_update_due(now_secs: i64, last_full_secs: i64, since_last_update_ns: i128) -> (u: StateUpdate)
    ensures
        u == spec_state_update(now_secs as int, last_full_secs as int, since_last_update_ns as int),
{
    let elapsed: i128 = (now_secs as i128) - (last_full_secs as i128);
    if elapsed < 60 {
        if since_last_update_ns > 120_000_000 {
            StateUpdate::Incremental
        } else {
            StateUpdate::Nothing
        }
    } else {
        StateUpdate::Full
    }
}

/// How a room's hibernation changes in one step.
#[derive(Debug, Clone, Copy, PartialEq, Eq, Structural)]
pub enum HibernationChange {
    /// The room falls asleep now
    Start,
    /// The room wakes up now
    End,
    /// Nothing changes
    Stay,
}

/// Whether the room hibernates after the change.
pub open spec fn hibernating_after(hibernating: bool, change: HibernationChange) -> bool {
    match change {
        HibernationChange::Start => true,
        HibernationChange::End => false,
        HibernationChange::Stay => hibernating,
    }
}

/// A room falls asleep when its last client has left and wakes up when a
/// client is back: after each check it hibernates exactly when it has no
/// client, and it changes only when that is not already so.
pub fn hibernation_step(hibernating: bool, no_clients: bool) -> (change: HibernationChange)
    ensures
        hibernating_after(hibernating, change) == no_clients,
        change == HibernationChange::Stay <==> hibernating == no_clients,
        change == HibernationChange::Start ==> !hibernating,
        change == HibernationChange::End ==> hibernating,
{
    if !hibernating && no_clients {
        HibernationChange::Start
    } else if hibernating && !no_clients {
        HibernationChange::End
    } else {
        HibernationChange::Stay
    }
}

/// Changing a robot's claim leaves every robot where it was found.
proof fn lemma_find_robot_update(robots: Seq<(String, RobotClaim)>, i: int, claim: RobotClaim, id: Seq<char>)
    requires
        0 <= i < robots.len(),
    ensures
        find_robot(robots.update(i, (robots[i].0, claim)), id) == find_robot(robots, id),
    decreases robots.len(),
{
    let updated = robots.update(i, (robots[i].0, claim));
    if i > 0 {
        let rest = robots.drop_first();
        lemma_find_robot_update(rest, i - 1, claim, id);
        assert(updated.drop_first() =~= rest.update(i - 1, (rest[i - 1].0, claim)));
    } else {
        assert(updated.drop_first() =~= robots.drop_first());
    }
}

/// A user who claims a free robot holds it: from then on any other user of
/// the room is refused when asking to reset, claim or encrypt it, while the
/// claimant may still reset and encrypt it and is the only one who can give
/// it up.
pub proof fn lemma_claim_gives_exclusive_control(
    robots: Seq<(String, RobotClaim)>,
    id: String,
    user: String,
    other: String,
)
    requires
        find_robot(robots, id@) matches Some(i) && robots[i].1.claimable && robots[i].1.claimed_by is None,
        user@ != other@,
    ensures
        ({
            let (granted, after) = spec_handle_client_message(ClientMessage::ClaimRobot(id), robots, Some(user), user);
            &&& granted == ClientAction::RobotClaimed(id, user)
            &&& spec_handle_client_message(ClientMessage::ResetRobot(id), after, Some(other), other).0
                == ClientAction::Nothing
            &&& spec_handle_client_message(ClientMessage::ClaimRobot(id), after, Some(other), other)
                == (ClientAction::Nothing, after)
            &&& spec_handle_client_message(ClientMessage::UnclaimRobot(id), after, Some(other), other)
                == (ClientAction::Nothing, after)
            &&& spec_handle_client_message(ClientMessage::EncryptRobot(id), after, Some(other), other).0
                == ClientAction::Nothing
            &&& spec_handle_client_message(ClientMessage::ResetRobot(id), after, Some(user), user).0
                == ClientAction::ResetRobot(id)
            &&& spec_handle_client_message(ClientMessage::EncryptRobot(id), after, Some(user), user).0
                == ClientAction::EncryptRobot(id)
        }),
{
    let i = find_robot(robots, id@)->0;
    lemma_find_robot_bound(robots, id@);
    let claim = RobotClaim { claimable: robots[i].1.claimable, claimed_by: Some(user) };
    lemma_find_robot_update(robots, i, claim, id@);
}

} // verus!
