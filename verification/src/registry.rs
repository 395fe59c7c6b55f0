use vstd::prelude::*;
use vstd::string::*;

use crate::common::{RoomInfo, ServerStatus};
use crate::ids::random_u32;
use crate::server_api::{has_visitor, visitor_names};
use crate::util::{owned, sum_of, sum_usizes};

verus! {

broadcast use vstd::string::group_string_axioms;

/// Number of awake (non-hibernating) rooms that run on `server`.
pub open spec fn active_count(rooms: Seq<RoomInfo>, server: Seq<char>) -> nat
    decreases rooms.len(),
{
    if rooms.len() == 0 {
        0
    } else {
        active_count(rooms.drop_last(), server) + if !rooms.last().is_hibernating
            && rooms.last().server@ == server {
            1nat
        } else {
            0nat
        }
    }
}

/// The servers that a load count covers: every known server, and every server
/// that an awake room runs on.
pub open spec fn counted_servers(servers: Seq<String>, rooms: Seq<RoomInfo>) -> Set<Seq<char>> {
    Set::new(
        |s: Seq<char>|
            names_of(servers).contains(s) || (exists|j: int|
                0 <= j < rooms.len() && !(#[trigger] rooms[j]).is_hibernating && rooms[j].server@ == s),
    )
}

/// The texts of a list of strings.
pub open spec fn names_of(servers: Seq<String>) -> Seq<Seq<char>> {
    servers.map_values(|x: String| x@)
}

/// Whether some entry of a load count is filed under `s`.
pub open spec fn has_key(counts: Seq<(String, usize)>, s: Seq<char>) -> bool {
    exists|a: int| 0 <= a < counts.len() && #[trigger] counts[a].0@ == s
}

/// A load count: one entry per counted server, none twice, each with the
/// number of awake rooms that run on it.
pub open spec fn is_load_count(counts: Seq<(String, usize)>, servers: Seq<String>, rooms: Seq<RoomInfo>) -> bool {
    &&& forall|a: int, b: int|
        0 <= a < b < counts.len() ==> #[trigger] counts[a].0@ != #[trigger] counts[b].0@
    &&& forall|a: int|
        0 <= a < counts.len() ==> #[trigger] counts[a].1 == active_count(rooms, counts[a].0@)
    &&& forall|a: int|
        0 <= a < counts.len() ==> counted_servers(servers, rooms).contains(#[trigger] counts[a].0@)
    &&& forall|s: Seq<char>|
        #[trigger] counted_servers(servers, rooms).contains(s) ==> has_key(counts, s)
}

fn index_of(counts: &Vec<(String, usize)>, key: &String) -> (r: Option<usize>)
    ensures
        match r {
            Some(a) => a < counts.len() && counts@[a as int].0@ == key@,
            None => forall|a: int| 0 <= a < counts.len() ==> #[trigger] counts@[a].0@ != key@,
        },
{
    let mut a: usize = 0;
    while a < counts.len()
        invariant
            a <= counts.len(),
            forall|b: int| 0 <= b < a ==> #[trigger] counts@[b].0@ != key@,
        decreases counts.len() - a,
    {
        if counts[a].0 == *key {
            return Some(a);
        }
        a += 1;
    }
    None
}

proof fn lemma_active_count_bound(rooms: Seq<RoomInfo>, server: Seq<char>)
    ensures
        active_count(rooms, server) <= rooms.len(),
    decreases rooms.len(),
{
    if rooms.len() > 0 {
        lemma_active_count_bound(rooms.drop_last(), server);
    }
}

proof fn lemma_active_count_zero(rooms: Seq<RoomInfo>, servers: Seq<String>, server: Seq<char>)
    requires
        !counted_servers(servers, rooms).contains(server),
    ensures
        active_count(rooms, server) == 0,
    decreases rooms.len(),
{
    if rooms.len() > 0 {
        let rest = rooms.drop_last();
        assert(!counted_servers(servers, rest).contains(server)) by {
            if exists|jj: int|
                0 <= jj < rest.len() && !(#[trigger] rest[jj]).is_hibernating && rest[jj].server@
                    == server {
                let jj = choose|jj: int|
                    0 <= jj < rest.len() && !(#[trigger] rest[jj]).is_hibernating
                        && rest[jj].server@ == server;
                assert(rooms[jj] == rest[jj]);
            }
        }
        lemma_active_count_zero(rest, servers, server);
        assert(rooms[rooms.len() - 1] == rooms.last());
    }
}

/// Get number of non-hibernating rooms per server
pub fn get_active_rooms_per_server(servers: &Vec<String>, rooms: &Vec<RoomInfo>) -> (counts: Vec<
    (String, usize),
>)
    ensures
        is_load_count(counts@, servers@, rooms@),
{
    let mut counts: Vec<(String, usize)> = Vec::new();
    let mut i: usize = 0;
    while i < servers.len()
        invariant
            i <= servers.len(),
            forall|a: int, b: int|
                0 <= a < b < counts.len() ==> #[trigger] counts@[a].0@ != #[trigger] counts@[b].0@,
            forall|a: int| 0 <= a < counts.len() ==> #[trigger] counts@[a].1 == 0,
            forall|a: int|
                0 <= a < counts.len() ==> names_of(servers@).contains(#[trigger] counts@[a].0@),
            forall|k: int| 0 <= k < i ==> has_key(counts@, #[trigger] servers@[k]@),
        decreases servers.len() - i,
    {
        let found = index_of(&counts, &servers[i]);
        let ghost before = counts@;
        if found.is_none() {
            counts.push((servers[i].clone(), 0));
            assert(counts@[counts.len() - 1].0@ == servers@[i as int]@);
            assert(names_of(servers@)[i as int] == servers@[i as int]@);
        }
        proof {
            assert forall|k: int| 0 <= k < i + 1 implies has_key(counts@, #[trigger] servers@[k]@) by {
                if k < i {
                    let a = choose|a: int| 0 <= a < before.len() && #[trigger] before[a].0@ == servers@[k]@;
                    assert(counts@[a] == before[a]);
                } else {
                    match found {
                        Some(a) => {
                            assert(counts@[a as int].0@ == servers@[k]@);
                        },
                        None => {
                            assert(counts@[counts.len() - 1].0@ == servers@[k]@);
                        },
                    }
                }
            }
        }
        i += 1;
    }
    proof {
        assert forall|s: Seq<char>| #[trigger] counted_servers(servers@, rooms@.take(0)).contains(s) implies has_key(counts@, s) by {
            let k = choose|k: int| 0 <= k < names_of(servers@).len() && names_of(servers@)[k] == s;
            assert(servers@[k]@ == s);
        }
    }
    let ghost rs = rooms@;
    let mut j: usize = 0;
    while j < rooms.len()
        invariant
            j <= rooms.len(),
            rs == rooms@,
            forall|a: int, b: int|
                0 <= a < b < counts.len() ==> #[trigger] counts@[a].0@ != #[trigger] counts@[b].0@,
            forall|a: int|
                0 <= a < counts.len() ==> #[trigger] counts@[a].1 == active_count(
                    rs.take(j as int),
                    counts@[a].0@,
                ),
            forall|a: int|
                0 <= a < counts.len() ==> counted_servers(servers@, rs.take(j as int)).contains(
                    #[trigger] counts@[a].0@,
                ),
            forall|s: Seq<char>|
                #[trigger] counted_servers(servers@, rs.take(j as int)).contains(s) ==> has_key(counts@, s),
        decreases rooms.len() - j,
    {
        let ghost old_counts = counts@;
        let ghost prefix = rs.take(j as int);
        let ghost next = rs.take(j + 1);
        assert(next.drop_last() =~= prefix);
        assert(next.last() == rs[j as int]);
        proof {
            assert forall|a: int| 0 <= a < old_counts.len() implies #[trigger] old_counts[a].1
                <= j by {
                lemma_active_count_bound(prefix, old_counts[a].0@);
            }
        }
        let room_server = &rooms[j].server;
        let awake = !rooms[j].is_hibernating;
        let mut hit: Option<usize> = None;
        if awake {
            hit = index_of(&counts, room_server);
            match hit {
                Some(a) => {
                    let c = counts[a].1;
                    let key = counts[a].0.clone();
                    counts.set(a, (key, c + 1));
                },
                None => {
                    counts.push((room_server.clone(), 1));
                },
            }
        }
        proof {
            let fresh = awake && hit is None;
            assert(counts.len() == old_counts.len() + if fresh { 1int } else { 0int });
            assert forall|a: int| 0 <= a < old_counts.len() implies #[trigger] counts@[a].0@
                == old_counts[a].0@ by {}
            assert forall|a: int| 0 <= a < counts.len() implies #[trigger] counts@[a].1
                == active_count(next, counts@[a].0@) by {
                let k = counts@[a].0@;
                assert(active_count(next, k) == active_count(prefix, k) + if awake && rs[j as int].server@
                    == k { 1nat } else { 0nat });
                if a < old_counts.len() {
                    assert(old_counts[a].1 == active_count(prefix, k));
                } else {
                    assert(k == rs[j as int].server@);
                    assert(!counted_servers(servers@, prefix).contains(k));
                    assert(active_count(prefix, k) == 0) by {
                        lemma_active_count_zero(prefix, servers@, k);
                    }
                }
            }
            assert forall|a: int| 0 <= a < counts.len() implies counted_servers(servers@, next).contains(
                #[trigger] counts@[a].0@,
            ) by {
                if a < old_counts.len() {
                    assert(counted_servers(servers@, prefix).contains(old_counts[a].0@));
                    if exists|jj: int|
                        0 <= jj < prefix.len() && !(#[trigger] prefix[jj]).is_hibernating
                            && prefix[jj].server@ == old_counts[a].0@ {
                        let jj = choose|jj: int|
                            0 <= jj < prefix.len() && !(#[trigger] prefix[jj]).is_hibernating
                                && prefix[jj].server@ == old_counts[a].0@;
                        assert(next[jj] == prefix[jj]);
                    }
                } else {
                    assert(next[j as int] == rs[j as int]);
                }
            }
            assert forall|s: Seq<char>| #[trigger]
                counted_servers(servers@, next).contains(s) implies has_key(counts@, s) by {
                if exists|jj: int|
                    0 <= jj < next.len() && !(#[trigger] next[jj]).is_hibernating && next[jj].server@
                        == s {
                    let jj = choose|jj: int|
                        0 <= jj < next.len() && !(#[trigger] next[jj]).is_hibernating
                            && next[jj].server@ == s;
                    if jj < j {
                        assert(prefix[jj] == next[jj]);
                        assert(counted_servers(servers@, prefix).contains(s));
                        let a = choose|a: int| 0 <= a < old_counts.len() && #[trigger] old_counts[a].0@ == s;
                        assert(counts@[a].0@ == s);
                    } else {
                        assert(next[jj] == rs[j as int]);
                        match hit {
                            Some(a) => {
                                assert(counts@[a as int].0@ == s);
                            },
                            None => {
                                assert(counts@[counts.len() - 1].0@ == s);
                            },
                        }
                    }
                } else {
                    assert(counted_servers(servers@, prefix).contains(s));
                    let a = choose|a: int| 0 <= a < old_counts.len() && #[trigger] old_counts[a].0@ == s;
                    assert(counts@[a].0@ == s);
                }
            }
        }
        j += 1;
    }
    assert(rs.take(rooms.len() as int) =~= rs);
    counts
}

/// The smallest count in a load count (0 for an empty one).
pub open spec fn min_count(counts: Seq<(String, usize)>) -> int
    decreases counts.len(),
{
    if counts.len() == 0 {
        0
    } else if counts.len() == 1 {
        counts[0].1 as int
    } else {
        let m = min_count(counts.drop_last());
        if counts.last().1 < m {
            counts.last().1 as int
        } else {
            m
        }
    }
}

/// The servers whose count is `m`, in order.
pub open spec fn servers_with_count(counts: Seq<(String, usize)>, m: int) -> Seq<Seq<char>>
    decreases counts.len(),
{
    if counts.len() == 0 {
        Seq::empty()
    } else {
        let rest = servers_with_count(counts.drop_last(), m);
        if counts.last().1 == m {
            rest.push(counts.last().0@)
        } else {
            rest
        }
    }
}

/// The servers with the fewest awake rooms, in the order of the count.
pub open spec fn least_loaded(counts: Seq<(String, usize)>) -> Seq<Seq<char>> {
    servers_with_count(counts, min_count(counts))
}

proof fn lemma_min_count(counts: Seq<(String, usize)>)
    requires
        counts.len() > 0,
    ensures
        forall|a: int| 0 <= a < counts.len() ==> min_count(counts) <= #[trigger] counts[a].1,
        exists|a: int| 0 <= a < counts.len() && min_count(counts) == #[trigger] counts[a].1,
    decreases counts.len(),
{
    if counts.len() > 1 {
        let rest = counts.drop_last();
        lemma_min_count(rest);
        assert forall|a: int| 0 <= a < counts.len() implies min_count(counts) <= #[trigger] counts[a].1 by {
            if a < rest.len() {
                assert(rest[a] == counts[a]);
            }
        }
        let a = choose|a: int| 0 <= a < rest.len() && min_count(rest) == #[trigger] rest[a].1;
        assert(rest[a] == counts[a]);
        assert(counts[counts.len() - 1] == counts.last());
    } else {
        assert(min_count(counts) == counts[0].1);
    }
}

/// Whether some entry of a load count is filed under `s` with count `m`.
pub open spec fn has_entry(counts: Seq<(String, usize)>, m: int, s: Seq<char>) -> bool {
    exists|a: int| 0 <= a < counts.len() && counts[a].1 == m && #[trigger] counts[a].0@ == s
}

proof fn lemma_servers_with_count(counts: Seq<(String, usize)>, m: int)
    ensures
        forall|x: int|
            0 <= x < servers_with_count(counts, m).len() ==> has_entry(
                counts,
                m,
                #[trigger] servers_with_count(counts, m)[x],
            ),
        (exists|a: int| 0 <= a < counts.len() && #[trigger] counts[a].1 == m) ==> servers_with_count(
            counts,
            m,
        ).len() > 0,
    decreases counts.len(),
{
    if counts.len() > 0 {
        let rest = counts.drop_last();
        lemma_servers_with_count(rest, m);
        assert forall|x: int| 0 <= x < servers_with_count(counts, m).len() implies has_entry(
            counts,
            m,
            #[trigger] servers_with_count(counts, m)[x],
        ) by {
            if x < servers_with_count(rest, m).len() {
                assert(servers_with_count(counts, m)[x] == servers_with_count(rest, m)[x]);
                assert(has_entry(rest, m, servers_with_count(rest, m)[x]));
                let a = choose|a: int|
                    0 <= a < rest.len() && rest[a].1 == m && #[trigger] rest[a].0@
                        == servers_with_count(rest, m)[x];
                assert(counts[a] == rest[a]);
            } else {
                let last = counts.len() - 1;
                assert(counts[last] == counts.last());
                assert(counts.last().1 == m);
                assert(counts[last].0@ == servers_with_count(counts, m)[x]);
            }
        }
        if exists|a: int| 0 <= a < counts.len() && #[trigger] counts[a].1 == m {
            let a = choose|a: int| 0 <= a < counts.len() && #[trigger] counts[a].1 == m;
            if a < rest.len() {
                assert(rest[a] == counts[a]);
            }
        }
    }
}

/// Pick a server to create a room on: among the servers with the fewest awake
/// rooms, the one that the random number selects.
pub fn pick_least_loaded(counts: &Vec<(String, usize)>, random: u32) -> (r: Option<String>)
    ensures
        counts.len() == 0 ==> r is None,
        counts.len() > 0 ==> r is Some && least_loaded(counts@).len() > 0 && r->0@ == least_loaded(
            counts@,
        )[(random as int) % (least_loaded(counts@).len() as int)],
{
    if counts.len() == 0 {
        return None;
    }
    let mut m: usize = counts[0].1;
    let mut i: usize = 1;
    assert(counts@.take(1).drop_last() =~= Seq::<(String, usize)>::empty());
    while i < counts.len()
        invariant
            1 <= i <= counts.len(),
            m == min_count(counts@.take(i as int)),
        decreases counts.len() - i,
    {
        assert(counts@.take(i + 1).drop_last() =~= counts@.take(i as int));
        if counts[i].1 < m {
            m = counts[i].1;
        }
        i += 1;
    }
    assert(counts@.take(counts.len() as int) =~= counts@);
    let mut candidates: Vec<String> = Vec::new();
    let mut k: usize = 0;
    assert(counts@.take(0) =~= Seq::<(String, usize)>::empty());
    while k < counts.len()
        invariant
            k <= counts.len(),
            candidates@.map_values(|x: String| x@) == servers_with_count(counts@.take(k as int), m as int),
        decreases counts.len() - k,
    {
        assert(counts@.take(k + 1).drop_last() =~= counts@.take(k as int));
        if counts[k].1 == m {
            let ghost old_c = candidates@;
            candidates.push(counts[k].0.clone());
            assert(candidates@.map_values(|x: String| x@) =~= old_c.map_values(|x: String| x@).push(counts@[k as int].0@));
        }
        k += 1;
    }
    proof {
        lemma_min_count(counts@);
        lemma_servers_with_count(counts@, m as int);
    }
    let n = candidates.len();
    let pick = (random as usize) % n;
    assert(candidates@.map_values(|x: String| x@)[pick as int] == candidates@[pick as int]@);
    Some(candidates[pick].clone())
}

/// Choose the server on which a new room is created: one with the fewest
/// awake rooms, drawn at random among those; `None` when no server is known
/// and no room is awake.
pub fn choose_server(servers: &Vec<String>, rooms: &Vec<RoomInfo>) -> (r: Option<String>)
    ensures
        r is None <==> counted_servers(servers@, rooms@).is_empty(),
        r matches Some(s) ==> {
            &&& counted_servers(servers@, rooms@).contains(s@)
            &&& forall|t: Seq<char>| #[trigger]
                counted_servers(servers@, rooms@).contains(t) ==> active_count(rooms@, s@)
                    <= active_count(rooms@, t)
        },
{
    let counts = get_active_rooms_per_server(servers, rooms);
    let r = pick_least_loaded(&counts, random_u32());
    proof {
        let cs = counted_servers(servers@, rooms@);
        if counts.len() == 0 {
            assert forall|t: Seq<char>| !cs.contains(t) by {
                if cs.contains(t) {
                    assert(has_key(counts@, t));
                }
            }
            assert(cs =~= Set::empty());
        } else {
            assert(cs.contains(counts@[0].0@));
            lemma_min_count(counts@);
            lemma_servers_with_count(counts@, min_count(counts@));
            let s = r->0@;
            let ll = least_loaded(counts@);
            let idx = choose|x: int| 0 <= x < ll.len() && ll[x] == s;
            assert(has_entry(counts@, min_count(counts@), ll[idx]));
            assert forall|t: Seq<char>| #[trigger] cs.contains(t) implies active_count(rooms@, s)
                <= active_count(rooms@, t) by {
                assert(has_key(counts@, t));
                let b = choose|b: int| 0 <= b < counts@.len() && #[trigger] counts@[b].0@ == t;
                assert(counts@[b].1 >= min_count(counts@));
            }
        }
    }
    r
}

/// `str::parse::<bool>`: `true` and `false` are read, any other text is refused.
pub open spec fn spec_parse_bool(s: Seq<char>) -> Option<bool> {
    if s == "true"@ {
        Some(true)
    } else if s == "false"@ {
        Some(false)
    } else {
        None
    }
}

/// Read a boolean as `str::parse::<bool>` does.
pub fn parse_bool(s: &String) -> (r: Option<bool>)
    ensures
        r == spec_parse_bool(s@),
{
    if *s == owned("true") {
        Some(true)
    } else if *s == owned("false") {
        Some(false)
    } else {
        None
    }
}

/// Whether the API server lists a room: a user filter keeps the rooms that
/// user visited, and a `notHibernating` flag that reads `true` keeps the awake ones.
pub open spec fn room_in_list(room: RoomInfo, user: Option<String>, not_hibernating: Option<String>) -> bool {
    &&& match user {
        Some(u) => visitor_names(room).contains(u@),
        None => true,
    }
    &&& match not_hibernating {
        Some(flag) => spec_parse_bool(flag@) == Some(true) ==> !room.is_hibernating,
        None => true,
    }
}

/// The rooms that `room_in_list` keeps, in their order.
pub open spec fn rooms_in_list(rooms: Seq<RoomInfo>, user: Option<String>, not_hibernating: Option<String>) -> Seq<
    RoomInfo,
>
    decreases rooms.len(),
{
    if rooms.len() == 0 {
        Seq::empty()
    } else {
        let rest = rooms_in_list(rooms.drop_last(), user, not_hibernating);
        if room_in_list(rooms.last(), user, not_hibernating) {
            rest.push(rooms.last())
        } else {
            rest
        }
    }
}

/// Get list of rooms, optionally filtering to a specific user and/or hibernating status
pub fn get_rooms_list(rooms: Vec<RoomInfo>, user: Option<String>, not_hibernating: Option<String>) -> (r:
    Vec<RoomInfo>)
    ensures
        r@ == rooms_in_list(rooms@, user, not_hibernating),
{
    let only_awake = match &not_hibernating {
        Some(flag) => match parse_bool(flag) {
            Some(b) => b,
            None => false,
        },
        None => false,
    };
    let ghost all = rooms@;
    let mut r: Vec<RoomInfo> = Vec::new();
    for room in it: rooms.into_iter()
        invariant
            it.seq() == all,
            only_awake == match not_hibernating {
                Some(flag) => spec_parse_bool(flag@) == Some(true),
                None => false,
            },
            r@ == rooms_in_list(all.take(it.index() as int), user, not_hibernating),
    {
        assert(all.take(it.index() + 1).drop_last() =~= all.take(it.index() as int));
        let keep_user = match &user {
            Some(u) => has_visitor(&room, u),
            None => true,
        };
        if keep_user && (!only_awake || !room.is_hibernating) {
            r.push(room);
        }
    }
    assert(all.take(all.len() as int) =~= all);
    r
}

/// The ids of the rooms that run on `server`, in order.
pub open spec fn room_ids_on(rooms: Seq<RoomInfo>, server: Seq<char>) -> Seq<Seq<char>>
    decreases rooms.len(),
{
    if rooms.len() == 0 {
        Seq::empty()
    } else {
        let rest = room_ids_on(rooms.drop_last(), server);
        if rooms.last().server@ == server {
            rest.push(rooms.last().id@)
        } else {
            rest
        }
    }
}

/// The ids of the rooms that run on `server`.
pub fn rooms_on_server(rooms: &Vec<RoomInfo>, server: &String) -> (ids: Vec<String>)
    ensures
        ids@.map_values(|x: String| x@) == room_ids_on(rooms@, server@),
{
    let mut ids: Vec<String> = Vec::new();
    let mut i: usize = 0;
    while i < rooms.len()
        invariant
            i <= rooms.len(),
            ids@.map_values(|x: String| x@) == room_ids_on(rooms@.take(i as int), server@),
        decreases rooms.len() - i,
    {
        assert(rooms@.take(i + 1).drop_last() =~= rooms@.take(i as int));
        if rooms[i].server == *server {
            let ghost before = ids@;
            ids.push(rooms[i].id.clone());
            assert(ids@.map_values(|x: String| x@) =~= before.map_values(|x: String| x@).push(
                rooms@[i as int].id@,
            ));
        }
        i += 1;
    }
    assert(rooms@.take(rooms.len() as int) =~= rooms@);
    ids
}

/// Rooms to forget when a server announces itself: when a server already
/// known reports no rooms at all it has been restarted, and the rooms filed
/// under its address are gone; otherwise none.
pub fn rooms_removed_by_announce(known_server: bool, status: &ServerStatus, rooms: &Vec<RoomInfo>) -> (ids:
    Vec<String>)
    ensures
        ids@.map_values(|x: String| x@) == if known_server && status.active_rooms == 0
            && status.hibernating_rooms == 0 {
            room_ids_on(rooms@, status.address@)
        } else {
            Seq::empty()
        },
{
    if known_server && status.active_rooms == 0 && status.hibernating_rooms == 0 {
        rooms_on_server(rooms, &status.address)
    } else {
        let ids: Vec<String> = Vec::new();
        assert(ids@.map_values(|x: String| x@) =~= Seq::<Seq<char>>::empty());
        ids
    }
}

/// Seconds without an announcement after which a server is forgotten.
pub open spec fn spec_stale_after() -> u64 {
    360
}

/// Whether a server whose last announcement is `elapsed_secs` old is
/// forgotten, with its rooms.
pub fn server_is_stale(elapsed_secs: u64) -> (r: bool)
    ensures
        r == (elapsed_secs > spec_stale_after()),
{
    elapsed_secs > 360
}

/// Room capacity of all known servers together.
pub fn total_max_rooms(max_rooms: &Vec<usize>) -> (total: usize)
    requires
        sum_of(max_rooms@) <= usize::MAX,
    ensures
        total == sum_of(max_rooms@),
{
    sum_usizes(max_rooms)
}

/// `str::parse::<bool>` reads exactly `true` and `false`.
pub proof fn lemma_parse_bool_words(s: Seq<char>)
    ensures
        (spec_parse_bool(s) == Some(true)) <==> s == "true"@,
        (spec_parse_bool(s) == Some(false)) <==> s == "false"@,
        (spec_parse_bool(s) is None) <==> !(s == "true"@ || s == "false"@),
{
    reveal_strlit("true");
    reveal_strlit("false");
    assert("true"@.len() == 4 && "false"@.len() == 5);
}

/// How the API server's room list is filtered: with no filter every room is
/// listed in order; a user filter keeps the rooms that user visited; a
/// `notHibernating` flag keeps only the awake rooms when it reads `true`, and
/// changes nothing otherwise, `false` included.
pub proof fn lemma_rooms_list_filters(rooms: Seq<RoomInfo>, user: Option<String>, flag: String)
    ensures
        rooms_in_list(rooms, None, None) == rooms,
        user matches Some(u) ==> rooms_in_list(rooms, user, None) == rooms.filter(
            |r: RoomInfo| visitor_names(r).contains(u@),
        ),
        flag@ != "true"@ ==> rooms_in_list(rooms, user, Some(flag)) == rooms_in_list(rooms, user, None),
        flag@ == "true"@ ==> rooms_in_list(rooms, user, Some(flag)) == rooms_in_list(rooms, user, None).filter(
            |r: RoomInfo| !r.is_hibernating,
        ),
    decreases rooms.len(),
{
    reveal(Seq::filter);
    lemma_parse_bool_words(flag@);
    if rooms.len() == 0 {
        assert(rooms_in_list(rooms, None, None) =~= rooms);
    } else {
        lemma_rooms_list_filters(rooms.drop_last(), user, flag);
        assert(rooms.drop_last().push(rooms.last()) =~= rooms);
        let l = rooms_in_list(rooms.drop_last(), user, None);
        assert(l.push(rooms.last()).drop_last() =~= l);
    }
}

} // verus!
