use vstd::prelude::*;
use vstd::string::*;

use crate::common::{RoomInfo, ServerStatus};
use crate::util::{owned, string_push};

verus! {

broadcast use vstd::string::group_string_axioms;

/// The address with every `.` replaced by `-`.
pub open spec fn dashed(s: Seq<char>) -> Seq<char> {
    s.map_values(|c: char| if c == '.' { '-' } else { c })
}

/// Whether an external address, once dashed, names this machine.
pub open spec fn is_local(ip: Seq<char>) -> bool {
    dashed(ip) == "127-0-0-1"@
}

/// WebSocket address of the simulation server reached at an external IP.
pub open spec fn spec_server_address(ip: Seq<char>) -> Seq<char> {
    (if is_local(ip) { "ws"@ } else { "wss"@ }) + "://"@ + dashed(ip)
        + ".roboscapeonlineservers.netsblox.org"@ + (if is_local(ip) { ":5000"@ } else { Seq::empty() })
}

/// HTTP address of the simulation server's API reached at an external IP.
pub open spec fn spec_local_api_address(ip: Seq<char>) -> Seq<char> {
    (if is_local(ip) { "http"@ } else { "https"@ }) + "://"@ + dashed(ip)
        + ".roboscapeonlineservers.netsblox.org:3000"@
}

fn dash_dots(s: &str) -> (r: String)
    ensures
        r@ == dashed(s@),
{
    let mut r = String::new();
    for c in it: s.chars()
        invariant
            it.seq() == s@,
            r@ == dashed(it.seq().take(it.index() as int)),
    {
        if c == '.' {
            string_push(&mut r, '-');
        } else {
            string_push(&mut r, c);
        }
        assert(dashed(it.seq().take(it.index() + 1)) =~= dashed(it.seq().take(it.index() as int)).push(
            if c == '.' { '-' } else { c },
        ));
    }
    assert(s@.take(s@.len() as int) =~= s@);
    r
}

/// Address of the simulation server, for the given external IP.
pub fn get_server(ip: &str) -> (address: String)
    ensures
        address@ == spec_server_address(ip@),
{
    let d = dash_dots(ip);
    let local = d == owned("127-0-0-1");
    let mut address = if local { owned("ws") } else { owned("wss") };
    address.append("://");
    address.append(d.as_str());
    address.append(".roboscapeonlineservers.netsblox.org");
    if local {
        address.append(":5000");
    }
    address
}

/// Address of the simulation server's own API, for the given external IP.
/// Port 3000 is what's exposed on deployed servers, even if locally running on a different port
pub fn get_local_api_server(ip: &str) -> (address: String)
    ensures
        address@ == spec_local_api_address(ip@),
{
    let d = dash_dots(ip);
    let local = d == owned("127-0-0-1");
    let mut address = if local { owned("http") } else { owned("https") };
    address.append("://");
    address.append(d.as_str());
    address.append(".roboscapeonlineservers.netsblox.org:3000");
    address
}

/// Get main API server URL: the local one in debug builds, the deployed one otherwise.
pub fn get_main_api_server(debug_build: bool) -> (url: String)
    ensures
        url@ == if debug_build {
            "http://127.0.0.1:5001"@
        } else {
            "https://roboscapeonlineapi2.netsblox.org"@
        },
{
    if debug_build {
        owned("http://127.0.0.1:5001")
    } else {
        owned("https://roboscapeonlineapi2.netsblox.org")
    }
}

/// The names of a room's visitors.
pub open spec fn visitor_names(room: RoomInfo) -> Seq<Seq<char>> {
    room.visitors@.map_values(|v: String| v@)
}

/// Whether `user` is among the room's visitors.
pub fn has_visitor(room: &RoomInfo, user: &String) -> (r: bool)
    ensures
        r == visitor_names(*room).contains(user@),
{
    let mut i: usize = 0;
    while i < room.visitors.len()
        invariant
            i <= room.visitors.len(),
            forall|j: int| 0 <= j < i ==> room.visitors@[j]@ != user@,
        decreases room.visitors.len() - i,
    {
        if room.visitors[i] == *user {
            assert(visitor_names(*room)[i as int] == user@);
            return true;
        }
        i += 1;
    }
    assert forall|j: int| 0 <= j < visitor_names(*room).len() implies visitor_names(*room)[j]
        != user@ by {
        assert(visitor_names(*room)[j] == room.visitors@[j]@);
    }
    false
}

/// Whether a room is listed: a non-empty user filter keeps only rooms that
/// user has visited, and hibernating rooms are kept only on request.
pub open spec fn room_listed(room: RoomInfo, user_filter: Option<String>, include_hibernating: bool) -> bool {
    &&& match user_filter {
        Some(user) => user@.len() == 0 || visitor_names(room).contains(user@),
        None => true,
    }
    &&& (include_hibernating || !room.is_hibernating)
}

/// The rooms that `room_listed` keeps, in their order.
pub open spec fn listed_rooms(rooms: Seq<RoomInfo>, user_filter: Option<String>, include_hibernating: bool) -> Seq<
    RoomInfo,
>
    decreases rooms.len(),
{
    if rooms.len() == 0 {
        Seq::empty()
    } else {
        let rest = listed_rooms(rooms.drop_last(), user_filter, include_hibernating);
        if room_listed(rooms.last(), user_filter, include_hibernating) {
            rest.push(rooms.last())
        } else {
            rest
        }
    }
}

/// Get list of rooms, optionally filtering to a specific user
pub fn get_rooms(rooms: Vec<RoomInfo>, user_filter: Option<String>, include_hibernating: bool) -> (r:
    Vec<RoomInfo>)
    ensures
        r@ == listed_rooms(rooms@, user_filter, include_hibernating),
{
    let ghost all = rooms@;
    let mut r: Vec<RoomInfo> = Vec::new();
    for room in it: rooms.into_iter()
        invariant
            it.seq() == all,
            r@ == listed_rooms(all.take(it.index() as int), user_filter, include_hibernating),
    {
        assert(all.take(it.index() + 1).drop_last() =~= all.take(it.index() as int));
        let keep_user = match &user_filter {
            Some(user) => user.as_str().is_empty() || has_visitor(&room, user),
            None => true,
        };
        if keep_user && (include_hibernating || !room.is_hibernating) {
            r.push(room);
        }
    }
    assert(all.take(all.len() as int) =~= all);
    r
}

/// How many of the flags are set.
pub open spec fn count_true(flags: Seq<bool>) -> nat
    decreases flags.len(),
{
    if flags.len() == 0 {
        0
    } else {
        count_true(flags.drop_last()) + if flags.last() {
            1nat
        } else {
            0nat
        }
    }
}

proof fn lemma_count_true_bound(flags: Seq<bool>)
    ensures
        count_true(flags) <= flags.len(),
    decreases flags.len(),
{
    if flags.len() > 0 {
        lemma_count_true_bound(flags.drop_last());
    }
}

/// Status of the rooms on this server, from whether each room hibernates:
/// every room counts as active, and the hibernating ones are counted too.
pub fn server_status(hibernating: &Vec<bool>, max_rooms: usize, address: String) -> (status: ServerStatus)
    ensures
        status.active_rooms == hibernating.len(),
        status.hibernating_rooms == count_true(hibernating@),
        status.max_rooms == max_rooms,
        status.address == address,
{
    let mut hibernating_rooms: usize = 0;
    let mut i: usize = 0;
    while i < hibernating.len()
        invariant
            i <= hibernating.len(),
            hibernating_rooms == count_true(hibernating@.take(i as int)),
        decreases hibernating.len() - i,
    {
        proof {
            assert(hibernating@.take(i + 1).drop_last() =~= hibernating@.take(i as int));
            lemma_count_true_bound(hibernating@.take(i as int));
        }
        if hibernating[i] {
            hibernating_rooms += 1;
        }
        i += 1;
    }
    assert(hibernating@.take(hibernating.len() as int) =~= hibernating@);
    ServerStatus { active_rooms: hibernating.len(), hibernating_rooms, max_rooms, address }
}

} // verus!
