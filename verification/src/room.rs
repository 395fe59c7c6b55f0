use vstd::prelude::*;
use vstd::string::*;

use crate::util::owned;

verus! {

broadcast use vstd::string::group_string_axioms;

/// Why a client could not join a room.
pub open spec fn spec_join_error(room_exists: bool, room_password: Option<String>, password: Seq<char>, room_id: Seq<char>) -> Option<Seq<char>> {
    if !room_exists {
        Some("Room "@ + room_id + " does not exist!"@)
    } else if room_password matches Some(p) && p@ != password {
        Some("Wrong password!"@)
    } else {
        None
    }
}

/// Check a request to join a room: the room must exist, and where it has a
/// password the request must give that password.
pub fn check_join(room_exists: bool, room_password: &Option<String>, password: &String, room_id: &String) -> (r:
    Result<(), String>)
    ensures
        match r {
            Ok(()) => spec_join_error(room_exists, *room_password, password@, room_id@) is None,
            Err(e) => spec_join_error(room_exists, *room_password, password@, room_id@) == Some(e@),
        },
{
    if !room_exists {
        let mut e = owned("Room ");
        e.append(room_id.as_str());
        e.append(" does not exist!");
        return Err(e);
    }
    match room_password {
        Some(p) => {
            if *p != *password {
                return Err(owned("Wrong password!"));
            }
        },
        None => {},
    }
    Ok(())
}

/// Who may use a robot.
#[derive(Debug)]
pub struct RobotClaim {
    /// Whether users may claim the robot; robots that the scenario drives are not claimable
    pub claimable: bool,
    /// Username of user who claimed this robot, or None if unclaimed
    pub claimed_by: Option<String>,
}

/// Whether a client may act on a robot (reset, encrypt, claim, unclaim).
/// A robot that does not exist, or is unclaimed and claimable, is open to all;
/// an unclaimable robot to none; a claimed robot to its claimant, and to a
/// client that is not in the room.
pub open spec fn spec_is_authorized(robot: Option<RobotClaim>, client_username: Option<String>) -> bool {
    match robot {
        None => true,
        Some(r) => if !r.claimable {
            false
        } else {
            match r.claimed_by {
                None => true,
                Some(claimant) => match client_username {
                    Some(u) => u@ == claimant@,
                    None => true,
                },
            }
        },
    }
}

/// Test if a client is allowed to interact with a robot (for encrypt, reset);
/// `client_username` is the username under which the client is in the room, if it is.
pub fn is_authorized(robot: Option<&RobotClaim>, client_username: Option<&String>) -> (r: bool)
    ensures
        r == spec_is_authorized(
            match robot {
                Some(x) => Some(*x),
                None => None,
            },
            match client_username {
                Some(u) => Some(*u),
                None => None,
            },
        ),
{
    match robot {
        None => true,
        Some(robot) => {
            if !robot.claimable {
                return false;
            }
            match &robot.claimed_by {
                None => true,
                Some(claimant) => match client_username {
                    Some(u) => *u == *claimant,
                    None => true,
                },
            }
        },
    }
}

/// What the room tells its clients after a claim request.
#[derive(Debug, PartialEq, Eq)]
pub enum ClaimUpdate {
    /// Nothing changed; nothing is sent
    Unchanged,
    /// The robot is now claimed by this user
    ClaimedBy(String),
    /// The robot is now unclaimed
    Released,
}

/// Claim a robot for `username`, whose client is in the room as `client_username`.
pub fn claim_robot(robot: &mut RobotClaim, client_username: Option<&String>, username: &String) -> (u: ClaimUpdate)
    ensures
        final(robot).claimable == old(robot).claimable,
        ({
            let granted = spec_is_authorized(
                Some(*old(robot)),
                match client_username {
                    Some(c) => Some(*c),
                    None => None,
                },
            ) && old(robot).claimed_by is None;
            if granted {
                &&& final(robot).claimed_by == Some(*username)
                &&& u == ClaimUpdate::ClaimedBy(*username)
            } else {
                &&& final(robot).claimed_by == old(robot).claimed_by
                &&& u == ClaimUpdate::Unchanged
            }
        }),
{
    if is_authorized(Some(&*robot), client_username) && robot.claimed_by.is_none() {
        robot.claimed_by = Some(username.clone());
        ClaimUpdate::ClaimedBy(username.clone())
    } else {
        ClaimUpdate::Unchanged
    }
}

/// Give up `username`'s claim on a robot, whose client is in the room as `client_username`.
pub fn unclaim_robot(robot: &mut RobotClaim, client_username: Option<&String>, username: &String) -> (u:
    ClaimUpdate)
    ensures
        final(robot).claimable == old(robot).claimable,
        ({
            let granted = spec_is_authorized(
                Some(*old(robot)),
                match client_username {
                    Some(c) => Some(*c),
                    None => None,
                },
            ) && (old(robot).claimed_by matches Some(c) && c@ == username@);
            if granted {
                &&& final(robot).claimed_by is None
                &&& u == ClaimUpdate::Released
            } else {
                &&& final(robot).claimed_by == old(robot).claimed_by
                &&& u == ClaimUpdate::Unchanged
            }
        }),
{
    let claimed_by_user = match &robot.claimed_by {
        Some(c) => *c == *username,
        None => false,
    };
    if is_authorized(Some(&*robot), client_username) && claimed_by_user {
        robot.claimed_by = None;
        ClaimUpdate::Released
    } else {
        ClaimUpdate::Unchanged
    }
}

/// Drop the claim of a user who is no longer in the room; `claimant_in_room`
/// tells whether the claimant still has a client there.
pub fn release_if_absent(robot: &mut RobotClaim, claimant_in_room: bool) -> (u: ClaimUpdate)
    ensures
        final(robot).claimable == old(robot).claimable,
        if old(robot).claimed_by is Some && !claimant_in_room {
            final(robot).claimed_by is None && u == ClaimUpdate::Released
        } else {
            final(robot).claimed_by == old(robot).claimed_by && u == ClaimUpdate::Unchanged
        },
{
    if robot.claimed_by.is_some() && !claimant_in_room {
        robot.claimed_by = None;
        ClaimUpdate::Released
    } else {
        ClaimUpdate::Unchanged
    }
}

/// A user who claims a free robot holds it against every other user in the
/// room, may still act on it, and gets it back to free by unclaiming it.
pub proof fn lemma_claim_excludes_others(claimable: bool, user: String, other: String)
    requires
        claimable,
        user@ != other@,
    ensures
        ({
            let claimed = RobotClaim { claimable, claimed_by: Some(user) };
            &&& spec_is_authorized(Some(claimed), Some(user))
            &&& !spec_is_authorized(Some(claimed), Some(other))
            &&& spec_is_authorized(Some(RobotClaim { claimable, claimed_by: None }), Some(other))
        }),
{
}

/// Kinds of message queued for a client, as the sender coalesces them.
#[derive(Debug, Clone, Copy, PartialEq, Eq, Structural)]
pub enum OutgoingKind {
    /// A full state update
    FullUpdate,
    /// An incremental state update
    IncrementalUpdate,
    /// Any other message
    Other,
}

/// Index of the last incremental update in a queue, if any.
pub open spec fn last_incremental<T>(q: Seq<(OutgoingKind, T)>) -> Option<int>
    decreases q.len(),
{
    if q.len() == 0 {
        None
    } else if q.last().0 == OutgoingKind::IncrementalUpdate {
        Some(q.len() - 1)
    } else {
        last_incremental(q.drop_last())
    }
}

/// The queue after a message is added: an incremental update replaces the
/// last incremental update still queued, if any; every other message is
/// appended.
pub open spec fn spec_enqueue<T>(q: Seq<(OutgoingKind, T)>, kind: OutgoingKind, msg: T) -> Seq<(OutgoingKind, T)> {
    if kind == OutgoingKind::IncrementalUpdate && q.len() > 0 {
        match last_incremental(q) {
            Some(i) => q.remove(i).push((kind, msg)),
            None => q.push((kind, msg)),
        }
    } else {
        q.push((kind, msg))
    }
}

fn find_last_incremental<T>(queue: &Vec<(OutgoingKind, T)>) -> (r: Option<usize>)
    ensures
        match r {
            Some(i) => i < queue.len() && last_incremental(queue@) == Some(i as int),
            None => last_incremental(queue@) is None,
        },
{
    let mut i: usize = queue.len();
    assert(queue@.take(i as int) =~= queue@);
    while i > 0
        invariant
            i <= queue.len(),
            last_incremental(queue@) == last_incremental(queue@.take(i as int)),
        decreases i,
    {
        assert(queue@.take(i as int).drop_last() =~= queue@.take(i - 1));
        if queue[i - 1].0 == OutgoingKind::IncrementalUpdate {
            return Some(i - 1);
        }
        i -= 1;
    }
    None
}

/// Add a message to a client's outgoing queue, replacing a stale incremental update.
pub fn enqueue_outgoing<T>(queue: &mut Vec<(OutgoingKind, T)>, kind: OutgoingKind, msg: T)
    ensures
        final(queue)@ == spec_enqueue(old(queue)@, kind, msg),
{
    if kind == OutgoingKind::IncrementalUpdate && queue.len() > 0 {
        // Replace existing non-full update
        match find_last_incremental(queue) {
            Some(i) => {
                let _ = queue.remove(i);
            },
            None => {},
        }
    }
    queue.push((kind, msg));
}

/// Number of incremental updates queued.
pub open spec fn incremental_count<T>(q: Seq<(OutgoingKind, T)>) -> nat
    decreases q.len(),
{
    if q.len() == 0 {
        0
    } else {
        incremental_count(q.drop_last()) + if q.last().0 == OutgoingKind::IncrementalUpdate {
            1nat
        } else {
            0nat
        }
    }
}

/// The queued messages that are not incremental updates, in order.
pub open spec fn non_incremental<T>(q: Seq<(OutgoingKind, T)>) -> Seq<(OutgoingKind, T)>
    decreases q.len(),
{
    if q.len() == 0 {
        Seq::empty()
    } else {
        let rest = non_incremental(q.drop_last());
        if q.last().0 != OutgoingKind::IncrementalUpdate {
            rest.push(q.last())
        } else {
            rest
        }
    }
}

proof fn lemma_queue_concat<T>(a: Seq<(OutgoingKind, T)>, b: Seq<(OutgoingKind, T)>)
    ensures
        incremental_count(a + b) == incremental_count(a) + incremental_count(b),
        non_incremental(a + b) == non_incremental(a) + non_incremental(b),
    decreases b.len(),
{
    if b.len() == 0 {
        assert(a + b =~= a);
        assert(non_incremental(a) + non_incremental(b) =~= non_incremental(a));
    } else {
        lemma_queue_concat(a, b.drop_last());
        assert((a + b).drop_last() =~= a + b.drop_last());
        assert((a + b).last() == b.last());
        assert(non_incremental(a + b) =~= non_incremental(a) + non_incremental(b));
    }
}

proof fn lemma_last_incremental<T>(q: Seq<(OutgoingKind, T)>)
    ensures
        match last_incremental(q) {
            Some(i) => 0 <= i < q.len() && q[i].0 == OutgoingKind::IncrementalUpdate
                && incremental_count(q) >= 1,
            None => incremental_count(q) == 0,
        },
    decreases q.len(),
{
    if q.len() > 0 {
        lemma_last_incremental(q.drop_last());
        if q.last().0 != OutgoingKind::IncrementalUpdate {
            if let Some(i) = last_incremental(q.drop_last()) {
                assert(q[i] == q.drop_last()[i]);
            }
        }
    }
}

proof fn lemma_queue_removal<T>(q: Seq<(OutgoingKind, T)>, i: int)
    requires
        0 <= i < q.len(),
        q[i].0 == OutgoingKind::IncrementalUpdate,
    ensures
        incremental_count(q.remove(i)) + 1 == incremental_count(q),
        non_incremental(q.remove(i)) == non_incremental(q),
{
    let one = seq![q[i]];
    assert(q =~= q.take(i) + one + q.skip(i + 1));
    assert(q.remove(i) =~= q.take(i) + q.skip(i + 1));
    lemma_queue_concat(q.take(i) + one, q.skip(i + 1));
    lemma_queue_concat(q.take(i), one);
    lemma_queue_concat(q.take(i), q.skip(i + 1));
    let empty = Seq::<(OutgoingKind, T)>::empty();
    assert(one =~= empty.push(q[i]));
    lemma_queue_push(empty, q[i]);
    assert(incremental_count(empty) == 0);
    assert(non_incremental(empty) =~= empty);
    assert(incremental_count(one) == 1);
    assert(non_incremental(one) =~= Seq::<(OutgoingKind, T)>::empty());
    assert(non_incremental(q.take(i)) + non_incremental(one) =~= non_incremental(q.take(i)));
}

proof fn lemma_queue_push<T>(q: Seq<(OutgoingKind, T)>, x: (OutgoingKind, T))
    ensures
        incremental_count(q.push(x)) == incremental_count(q) + if x.0 == OutgoingKind::IncrementalUpdate {
            1nat
        } else {
            0nat
        },
        non_incremental(q.push(x)) == if x.0 == OutgoingKind::IncrementalUpdate {
            non_incremental(q)
        } else {
            non_incremental(q).push(x)
        },
{
    assert(q.push(x).drop_last() =~= q);
    assert(q.push(x).last() == x);
}

/// A client's queue never holds more than one incremental update: adding a
/// message keeps that so, and an incremental update just added is the one
/// waiting, at the end of the queue.
pub proof fn lemma_enqueue_keeps_one_incremental<T>(q: Seq<(OutgoingKind, T)>, kind: OutgoingKind, msg: T)
    requires
        incremental_count(q) <= 1,
    ensures
        incremental_count(spec_enqueue(q, kind, msg)) <= 1,
        kind == OutgoingKind::IncrementalUpdate ==> incremental_count(spec_enqueue(q, kind, msg)) == 1,
        spec_enqueue(q, kind, msg).last() == (kind, msg),
{
    lemma_last_incremental(q);
    if kind == OutgoingKind::IncrementalUpdate && q.len() > 0 {
        if let Some(i) = last_incremental(q) {
            lemma_queue_removal(q, i);
            lemma_queue_push(q.remove(i), (kind, msg));
        } else {
            lemma_queue_push(q, (kind, msg));
        }
    } else {
        lemma_queue_push(q, (kind, msg));
    }
}

/// Adding a message never drops or reorders a full update or any other
/// message that is not an incremental update.
pub proof fn lemma_enqueue_keeps_other_messages<T>(q: Seq<(OutgoingKind, T)>, kind: OutgoingKind, msg: T)
    ensures
        non_incremental(spec_enqueue(q, kind, msg)) == if kind == OutgoingKind::IncrementalUpdate {
            non_incremental(q)
        } else {
            non_incremental(q).push((kind, msg))
        },
{
    lemma_last_incremental(q);
    if kind == OutgoingKind::IncrementalUpdate && q.len() > 0 {
        if let Some(i) = last_incremental(q) {
            lemma_queue_removal(q, i);
            lemma_queue_push(q.remove(i), (kind, msg));
        } else {
            lemma_queue_push(q, (kind, msg));
        }
    } else {
        lemma_queue_push(q, (kind, msg));
    }
}

} // verus!
