use vstd::prelude::*;

use dashmap::{DashMap, DashSet};

use crate::common::ClientMessage;
use crate::util::lemma_push_contains;

verus! {

/// Declares `dashmap::DashMap` so that the socket table can live in verified structs.
#[verifier::external_type_specification]
#[verifier::external_body]
#[verifier::reject_recursive_types(K)]
#[verifier::reject_recursive_types(V)]
#[verifier::reject_recursive_types(S)]
pub struct ExDashMap<K, V, S>(DashMap<K, V, S>);

/// Declares `dashmap::DashSet`, the set of client ids under one username.
#[verifier::external_type_specification]
#[verifier::external_body]
#[verifier::reject_recursive_types(K)]
#[verifier::reject_recursive_types(S)]
pub struct ExDashSet<K, S>(DashSet<K, S>);

/// Usernames with the client ids of each.
pub type SocketTable = DashMap<String, DashSet<u128>>;

/// The client ids that a `DashSet` holds.
pub uninterp spec fn client_set(s: DashSet<u128>) -> Set<u128>;

/// What a socket table holds: for each username, the set of its client ids.
pub uninterp spec fn socket_table(m: SocketTable) -> Map<Seq<char>, Set<u128>>;

/// A table with no username filed.
pub open spec fn empty_table() -> Map<Seq<char>, Set<u128>> {
    Map::empty()
}

/// `DashMap::new`: an empty table.
#[verifier::external_body]
fn table_new() -> (m: SocketTable)
    ensures
        socket_table(m).dom().is_empty(),
{
    DashMap::new()
}

/// `DashSet::new`: an empty set.
#[verifier::external_body]
fn set_new() -> (s: DashSet<u128>)
    ensures
        client_set(s).is_empty(),
{
    DashSet::new()
}

/// `DashMap::insert`: files `v` under `k`, replacing what was filed there.
#[verifier::external_body]
fn table_insert(m: &mut SocketTable, k: String, v: DashSet<u128>)
    ensures
        socket_table(*final(m)) == socket_table(*old(m)).insert(k@, client_set(v)),
{
    m.insert(k, v);
}

/// `DashMap::remove`: takes out the entry filed under `k`, if there is one.
#[verifier::external_body]
fn table_remove(m: &mut SocketTable, k: &String) -> (r: Option<(String, DashSet<u128>)>)
    ensures
        socket_table(*final(m)) == socket_table(*old(m)).remove(k@),
        match r {
            Some(entry) => socket_table(*old(m)).contains_key(k@) && entry.0@ == k@ && client_set(entry.1)
                == socket_table(*old(m))[k@],
            None => !socket_table(*old(m)).contains_key(k@),
        },
{
    m.remove(k)
}

/// `DashMap::clear`: removes every entry.
#[verifier::external_body]
fn table_clear(m: &mut SocketTable)
    ensures
        socket_table(*final(m)) == empty_table(),
{
    m.clear();
}

/// `DashMap::is_empty`: whether no username is filed.
#[verifier::external_body]
fn table_is_empty(m: &SocketTable) -> (r: bool)
    ensures
        r == socket_table(*m).dom().is_empty(),
{
    m.is_empty()
}

/// `DashMap::iter`, each entry handed out as its username and its client ids:
/// every username exactly once, each with all of its ids, each id once.
#[verifier::external_body]
fn table_entries(m: &SocketTable) -> (entries: Vec<(String, Vec<u128>)>)
    ensures
        forall|a: int, b: int|
            0 <= a < b < entries.len() ==> #[trigger] entries@[a].0@ != #[trigger] entries@[b].0@,
        forall|a: int|
            0 <= a < entries.len() ==> {
                &&& socket_table(*m).contains_key(#[trigger] entries@[a].0@)
                &&& entries@[a].1@.to_set() == socket_table(*m)[entries@[a].0@]
                &&& entries@[a].1@.no_duplicates()
            },
        forall|u: Seq<char>| #[trigger]
            socket_table(*m).contains_key(u) ==> exists|a: int|
                0 <= a < entries.len() && #[trigger] entries@[a].0@ == u,
{
    m.iter().map(|e| (e.key().clone(), e.value().iter().map(|id| *id).collect())).collect()
}

/// `DashSet::insert`: adds a client id.
#[verifier::external_body]
fn set_insert(s: &mut DashSet<u128>, id: u128)
    ensures
        client_set(*final(s)) == client_set(*old(s)).insert(id),
{
    s.insert(id);
}

/// `DashSet::remove`: removes a client id.
#[verifier::external_body]
fn set_remove(s: &mut DashSet<u128>, id: &u128)
    ensures
        client_set(*final(s)) == client_set(*old(s)).remove(*id),
{
    s.remove(id);
}

/// `DashSet::is_empty`: whether no client id is left.
#[verifier::external_body]
fn set_is_empty(s: &DashSet<u128>) -> (r: bool)
    ensures
        r == client_set(*s).is_empty(),
{
    s.is_empty()
}

#[derive(Debug)]
pub struct ClientsManager {
    pub(crate) sockets: SocketTable,
}

impl ClientsManager {
    /// For each username in the room, the ids of its connected clients.
    pub closed spec fn view(&self) -> Map<Seq<char>, Set<u128>> {
        socket_table(self.sockets)
    }

    pub fn new() -> (m: Self)
        ensures
            m.view() == empty_table(),
    {
        ClientsManager { sockets: table_new() }
    }

    /// Send every client away.
    pub fn clear(&mut self)
        ensures
            final(self).view() == empty_table(),
    {
        table_clear(&mut self.sockets);
    }

    /// Whether no client is in the room.
    pub fn is_empty(&self) -> (r: bool)
        ensures
            r == self.view().dom().is_empty(),
    {
        table_is_empty(&self.sockets)
    }

    /// Record that client `peer_id` of user `username` is in the room.
    pub fn add_client(&mut self, username: &String, peer_id: u128)
        ensures
            final(self).view() == old(self).view().insert(
                username@,
                if old(self).view().contains_key(username@) {
                    old(self).view()[username@]
                } else {
                    Set::empty()
                }.insert(peer_id),
            ),
    {
        let mut set = match table_remove(&mut self.sockets, username) {
            Some(entry) => entry.1,
            None => set_new(),
        };
        set_insert(&mut set, peer_id);
        table_insert(&mut self.sockets, username.clone(), set);
        assert(final(self).view() =~= old(self).view().insert(
            username@,
            if old(self).view().contains_key(username@) {
                old(self).view()[username@]
            } else {
                Set::empty()
            }.insert(peer_id),
        ));
    }

    /// Record that client `peer_id` of user `username` left; a username
    /// whose last client left is dropped.
    pub fn remove_client(&mut self, username: &String, peer_id: u128)
        ensures
            final(self).view() == spec_remove_client(old(self).view(), username@, peer_id),
    {
        match table_remove(&mut self.sockets, username) {
            None => {
                assert(final(self).view() =~= old(self).view());
            },
            Some(entry) => {
                let (name, mut set) = entry;
                set_remove(&mut set, &peer_id);
                if !set_is_empty(&set) {
                    table_insert(&mut self.sockets, name, set);
                }
            },
        }
    }

    /// The usernames in the room, each once.
    pub fn usernames(&self) -> (names: Vec<String>)
        ensures
            forall|a: int, b: int|
                0 <= a < b < names.len() ==> #[trigger] names@[a]@ != #[trigger] names@[b]@,
            forall|a: int| 0 <= a < names.len() ==> self.view().contains_key(#[trigger] names@[a]@),
            forall|u: Seq<char>| #[trigger]
                self.view().contains_key(u) ==> exists|a: int|
                    0 <= a < names.len() && #[trigger] names@[a]@ == u,
    {
        let entries = table_entries(&self.sockets);
        let mut names: Vec<String> = Vec::new();
        let mut i: usize = 0;
        while i < entries.len()
            invariant
                i <= entries.len(),
                names.len() == i,
                forall|a: int| 0 <= a < i ==> #[trigger] names@[a]@ == entries@[a].0@,
            decreases entries.len() - i,
        {
            names.push(entries[i].0.clone());
            i += 1;
        }
        proof {
            assert forall|u: Seq<char>| #[trigger] self.view().contains_key(u) implies exists|a: int|
                0 <= a < names.len() && #[trigger] names@[a]@ == u by {
                let a = choose|a: int| 0 <= a < entries.len() && #[trigger] entries@[a].0@ == u;
                assert(names@[a]@ == u);
            }
        }
        names
    }

    /// The username under which a client is in the room, if it is.
    #[verifier::loop_isolation(false)]
    pub fn username_of(&self, client: u128) -> (r: Option<String>)
        ensures
            match r {
                Some(u) => self.view().contains_key(u@) && self.view()[u@].contains(client),
                None => forall|u: Seq<char>| #[trigger]
                    self.view().contains_key(u) ==> !self.view()[u].contains(client),
            },
    {
        let entries = table_entries(&self.sockets);
        let mut i: usize = 0;
        while i < entries.len()
            invariant
                i <= entries.len(),
                forall|a: int| 0 <= a < i ==> !(#[trigger] entries@[a]).1@.contains(client),
            decreases entries.len() - i,
        {
            let ids = &entries[i].1;
            let mut k: usize = 0;
            while k < ids.len()
                invariant
                    i < entries.len(),
                    ids@ == entries@[i as int].1@,
                    k <= ids.len(),
                    forall|b: int| 0 <= b < k ==> ids@[b] != client,
                decreases ids.len() - k,
            {
                if ids[k] == client {
                    let name = entries[i].0.clone();
                    proof {
                        assert(entries@[i as int].1@.contains(client));
                        assert(entries@[i as int].1@.to_set().contains(client));
                        assert(self.view().contains_key(entries@[i as int].0@));
                    }
                    return Some(name);
                }
                k += 1;
            }
            i += 1;
        }
        proof {
            assert forall|u: Seq<char>| #[trigger] self.view().contains_key(u) implies !self.view()[u].contains(
                client,
            ) by {
                let a = choose|a: int| 0 <= a < entries.len() && #[trigger] entries@[a].0@ == u;
                assert(!entries@[a].1@.contains(client));
            }
        }
        None
    }

    /// The ids of all clients in the room.
    /// The ids of all clients in the room.
    pub fn client_ids(&self) -> (ids: Vec<u128>)
        ensures
            forall|id: u128| #[trigger] ids@.contains(id) <==> in_room(self.view(), id),
    {
        let entries = table_entries(&self.sockets);
        let mut ids: Vec<u128> = Vec::new();
        let mut i: usize = 0;
        while i < entries.len()
            invariant
                i <= entries.len(),
                ids@ == all_ids(entries@.take(i as int)),
            decreases entries.len() - i,
        {
            let ids_i = &entries[i].1;
            let mut k: usize = 0;
            while k < ids_i.len()
                invariant
                    i < entries.len(),
                    ids_i@ == entries@[i as int].1@,
                    k <= ids_i.len(),
                    ids@ == all_ids(entries@.take(i as int)) + ids_i@.take(k as int),
                decreases ids_i.len() - k,
            {
                ids.push(ids_i[k]);
                assert(ids_i@.take(k + 1) =~= ids_i@.take(k as int).push(ids_i@[k as int]));
                k += 1;
            }
            assert(ids_i@.take(ids_i.len() as int) =~= ids_i@);
            assert(entries@.take(i + 1).drop_last() =~= entries@.take(i as int));
            i += 1;
        }
        proof {
            assert(entries@.take(entries.len() as int) =~= entries@);
            assert forall|id: u128| #[trigger] ids@.contains(id) <==> in_room(self.view(), id) by {
                lemma_all_ids_member(entries@, id);
                if ids@.contains(id) {
                    let a = choose|a: int| 0 <= a < entries.len() && #[trigger] entries@[a].1@.contains(id);
                    assert(entries@[a].1@.to_set().contains(id));
                    assert(self.view().contains_key(entries@[a].0@) && self.view()[entries@[a].0@].contains(id));
                }
                if in_room(self.view(), id) {
                    let u = choose|u: Seq<char>| self.view().contains_key(u) && self.view()[u].contains(id);
                    let a = choose|a: int| 0 <= a < entries.len() && #[trigger] entries@[a].0@ == u;
                    assert(entries@[a].1@.to_set().contains(id));
                    assert(entries@[a].1@.contains(id));
                }
            }
        }
        ids
    }

    /// Drops from the room every client whose id is not in `connected`, and a
    /// username whose clients all left with it. Returns each client that was
    /// dropped with its username, so that the room can announce that the user
    /// left; users come in the order in which the socket table hands them out.
    #[verifier::loop_isolation(false)]
    pub fn remove_disconnected_clients(&mut self, connected: &Vec<u128>) -> (left: Vec<(String, u128)>)
        ensures
            final(self).view() == spec_prune(old(self).view(), connected@),
            exists|entries: Seq<(String, Vec<u128>)>|
                #![trigger lists_table(old(self).view(), entries)]
                lists_table(old(self).view(), entries) && pairs_view(left@) == all_gone(
                    entries,
                    connected@,
                ),
    {
        let ghost v = self.view();
        let ghost c = connected@;
        let entries = table_entries(&self.sockets);
        assert(lists_table(v, entries@));
        let mut left: Vec<(String, u128)> = Vec::new();
        let mut i: usize = 0;
        assert(prune_done(v, c, done_names(entries@, 0)) =~= v);
        while i < entries.len()
            invariant
                i <= entries.len(),
                v == old(self).view(),
                c == connected@,
                lists_table(v, entries@),
                self.view() == prune_done(v, c, done_names(entries@, i as int)),
                pairs_view(left@) == all_gone(entries@.take(i as int), c),
            decreases entries.len() - i,
        {
            let name = &entries[i].0;
            let ids = &entries[i].1;
            let ghost u = name@;
            let ghost done = done_names(entries@, i as int);
            assert(!done.contains(u)) by {
                if done.contains(u) {
                    let a = choose|a: int| 0 <= a < i && #[trigger] entries@[a].0@ == u;
                    assert(entries@[a].0@ != entries@[i as int].0@);
                }
            }
            assert(done_names(entries@, i + 1) =~= done.insert(u));
            assert(v.contains_key(u) && ids@.to_set() == v[u]);
            let gone = disconnected_ids(ids, connected);
            proof {
                lemma_disconnected_member(ids@, c);
            }
            let ghost start = pairs_view(left@);
            if gone.len() == 0 {
                proof {
                    assert forall|id: u128| #[trigger] v[u].contains(id) implies c.contains(id) by {
                        assert(ids@.contains(id));
                        if !c.contains(id) {
                            assert(gone@.contains(id));
                        }
                    }
                    assert(kept_ids(v[u], c) =~= v[u]);
                    assert(prune_done(v, c, done.insert(u)) =~= prune_done(v, c, done));
                }
            } else {
                let ghost before = self.view();
                match table_remove(&mut self.sockets, name) {
                    None => {
                        assert(false);
                    },
                    Some(entry) => {
                        let (key, mut set) = entry;
                        assert(client_set(set) == v[u]);
                        let mut k: usize = 0;
                        while k < gone.len()
                            invariant
                                k <= gone.len(),
                                client_set(set) == v[u].filter(|id: u128| !gone@.take(k as int).contains(id)),
                                pairs_view(left@) == start + gone@.take(k as int).map_values(|g: u128| (u, g)),
                            decreases gone.len() - k,
                        {
                            let g = gone[k];
                            set_remove(&mut set, &g);
                            let ghost prev = left@;
                            left.push((name.clone(), g));
                            proof {
                                assert(gone@.take(k + 1) =~= gone@.take(k as int).push(g));
                                assert forall|id: u128| #[trigger] client_set(set).contains(id) == v[u].filter(
                                    |x: u128| !gone@.take(k + 1).contains(x),
                                ).contains(id) by {
                                    lemma_push_contains(gone@.take(k as int), g, id);
                                }
                                assert(client_set(set) =~= v[u].filter(|id: u128| !gone@.take(k + 1).contains(id)));
                                assert(pairs_view(left@) =~= pairs_view(prev).push((u, g)));
                                assert(gone@.take(k + 1).map_values(|x: u128| (u, x)) =~= gone@.take(
                                    k as int,
                                ).map_values(|x: u128| (u, x)).push((u, g)));
                            }
                            k += 1;
                        }
                        proof {
                            assert(gone@.take(gone.len() as int) =~= gone@);
                            assert(client_set(set) =~= kept_ids(v[u], c));
                            let w = gone@[0];
                            assert(gone@.contains(w));
                            assert(ids@.contains(w));
                            assert(v[u].contains(w));
                        }
                        if !set_is_empty(&set) {
                            table_insert(&mut self.sockets, key, set);
                            assert(self.view() =~= prune_done(v, c, done.insert(u)));
                        } else {
                            assert(self.view() =~= prune_done(v, c, done.insert(u)));
                        }
                    },
                }
            }
            proof {
                assert(entries@.take(i + 1).drop_last() =~= entries@.take(i as int));
            }
            i += 1;
        }
        proof {
            assert(entries@.take(entries.len() as int) =~= entries@);
            assert(prune_done(v, c, done_names(entries@, entries.len() as int)) =~= spec_prune(v, c)) by {
                assert forall|u: Seq<char>| v.contains_key(u) implies #[trigger] done_names(
                    entries@,
                    entries.len() as int,
                ).contains(u) by {
                    let a = choose|a: int| 0 <= a < entries.len() && #[trigger] entries@[a].0@ == u;
                }
            }
        }
        left
    }

    /// Take the messages waiting from the room's clients, each with the
    /// username and id of the client that sent it. `inbox` holds the queue of
    /// each connected client, by client id; the queues of the room's clients
    /// are emptied, the others left as they are. Users are taken in the order
    /// in which the socket table hands them out, and each user's clients in the
    /// same way; a client filed under two usernames gives its messages once.
    pub fn get_messages(&self, inbox: &mut Vec<(u128, Vec<ClientMessage>)>) -> (msgs: Vec<
        (ClientMessage, String, u128),
    >)
        ensures
            exists|entries: Seq<(String, Vec<u128>)>|
                #![trigger lists_table(self.view(), entries)]
                lists_table(self.view(), entries) && tagged_view(msgs@) == all_messages(
                    entries,
                    old(inbox)@,
                ),
            drained(old(inbox)@, final(inbox)@, room_ids(self.view())),
    {
        let entries = table_entries(&self.sockets);
        assert(lists_table(self.view(), entries@));
        let msgs = messages_from_entries(&entries, inbox);
        proof {
            assert(all_ids(entries@).to_set() =~= room_ids(self.view())) by {
                assert forall|id: u128| #[trigger] room_ids(self.view()).contains(id) == all_ids(
                    entries@,
                ).to_set().contains(id) by {
                    lemma_all_ids_member(entries@, id);
                    if all_ids(entries@).contains(id) {
                        let a = choose|a: int| 0 <= a < entries.len() && #[trigger] entries@[a].1@.contains(id);
                        assert(entries@[a].1@.to_set().contains(id));
                        assert(self.view().contains_key(entries@[a].0@) && self.view()[entries@[a].0@].contains(id));
                    }
                    if in_room(self.view(), id) {
                        let u = choose|u: Seq<char>| self.view().contains_key(u) && self.view()[u].contains(id);
                        let a = choose|a: int| 0 <= a < entries.len() && #[trigger] entries@[a].0@ == u;
                        assert(entries@[a].1@.to_set().contains(id));
                        assert(entries@[a].1@.contains(id));
                    }
                }
            }
        }
        msgs
    }
}

/// `entries` lists `view` one user at a time: each username once, each with
/// all of its client ids, each id once.
pub open spec fn lists_table(view: Map<Seq<char>, Set<u128>>, entries: Seq<(String, Vec<u128>)>) -> bool {
    &&& forall|a: int, b: int|
        0 <= a < b < entries.len() ==> #[trigger] entries[a].0@ != #[trigger] entries[b].0@
    &&& forall|a: int|
        0 <= a < entries.len() ==> {
            &&& view.contains_key(#[trigger] entries[a].0@)
            &&& entries[a].1@.to_set() == view[entries[a].0@]
            &&& entries[a].1@.no_duplicates()
        }
    &&& forall|u: Seq<char>| #[trigger]
        view.contains_key(u) ==> exists|a: int| 0 <= a < entries.len() && #[trigger] entries[a].0@ == u
}

/// Whether client `id` is in the room under some username.
pub open spec fn in_room(view: Map<Seq<char>, Set<u128>>, id: u128) -> bool {
    exists|u: Seq<char>| view.contains_key(u) && #[trigger] view[u].contains(id)
}

/// The client ids of all users in `entries`, user by user.
pub open spec fn all_ids(entries: Seq<(String, Vec<u128>)>) -> Seq<u128>
    decreases entries.len(),
{
    if entries.len() == 0 {
        Seq::empty()
    } else {
        all_ids(entries.drop_last()) + entries.last().1@
    }
}

/// An id is among `all_ids(entries)` exactly when some user's list holds it.
proof fn lemma_all_ids_member(entries: Seq<(String, Vec<u128>)>, id: u128)
    ensures
        all_ids(entries).contains(id) <==> exists|a: int|
            0 <= a < entries.len() && #[trigger] entries[a].1@.contains(id),
    decreases entries.len(),
{
    if entries.len() > 0 {
        let init = entries.drop_last();
        lemma_all_ids_member(init, id);
        let whole = all_ids(entries);
        let head = all_ids(init);
        let last = entries.last().1@;
        assert(whole == head + last);
        if whole.contains(id) {
            let j = choose|j: int| 0 <= j < whole.len() && whole[j] == id;
            if j < head.len() {
                assert(head[j] == id);
                let a = choose|a: int| 0 <= a < init.len() && #[trigger] init[a].1@.contains(id);
                assert(entries[a] == init[a]);
                assert(entries[a].1@.contains(id));
            } else {
                assert(last[j - head.len()] == id);
                assert(entries[entries.len() - 1].1@.contains(id));
            }
        }
        if exists|a: int| 0 <= a < entries.len() && #[trigger] entries[a].1@.contains(id) {
            let a = choose|a: int| 0 <= a < entries.len() && #[trigger] entries[a].1@.contains(id);
            if a < entries.len() - 1 {
                assert(init[a] == entries[a]);
                assert(init[a].1@.contains(id));
                let j = choose|j: int| 0 <= j < head.len() && head[j] == id;
                assert(whole[j] == id);
            } else {
                let j = choose|j: int| 0 <= j < last.len() && last[j] == id;
                assert(whole[head.len() + j] == id);
            }
        }
    }
}

/// The ids of `ids` that are kept when only `connected` clients stay.
pub open spec fn kept_ids(ids: Set<u128>, connected: Seq<u128>) -> Set<u128> {
    ids.filter(|id: u128| connected.contains(id))
}

/// Whether username `u` stays in the room once the disconnected clients are
/// dropped: it does unless it had clients and none of them is connected.
pub open spec fn stays(view: Map<Seq<char>, Set<u128>>, u: Seq<char>, connected: Seq<u128>) -> bool {
    view[u].is_empty() || !kept_ids(view[u], connected).is_empty()
}

/// The socket table once every client not in `connected` is dropped.
pub open spec fn spec_prune(view: Map<Seq<char>, Set<u128>>, connected: Seq<u128>) -> Map<Seq<char>, Set<u128>> {
    Map::new(
        |u: Seq<char>| view.contains_key(u) && stays(view, u, connected),
        |u: Seq<char>| kept_ids(view[u], connected),
    )
}

/// The socket table once the users in `done` have had their disconnected
/// clients dropped.
pub open spec fn prune_done(view: Map<Seq<char>, Set<u128>>, connected: Seq<u128>, done: Set<Seq<char>>) -> Map<
    Seq<char>,
    Set<u128>,
> {
    Map::new(
        |u: Seq<char>| view.contains_key(u) && (!done.contains(u) || stays(view, u, connected)),
        |u: Seq<char>|
            if done.contains(u) {
                kept_ids(view[u], connected)
            } else {
                view[u]
            },
    )
}

/// The usernames of the first `n` entries.
pub open spec fn done_names(entries: Seq<(String, Vec<u128>)>, n: int) -> Set<Seq<char>> {
    Set::new(|u: Seq<char>| exists|a: int| 0 <= a < n && #[trigger] entries[a].0@ == u)
}

/// The ids of `ids` that are not in `connected`, in order.
pub open spec fn disconnected(ids: Seq<u128>, connected: Seq<u128>) -> Seq<u128>
    decreases ids.len(),
{
    if ids.len() == 0 {
        Seq::empty()
    } else if connected.contains(ids.last()) {
        disconnected(ids.drop_last(), connected)
    } else {
        disconnected(ids.drop_last(), connected).push(ids.last())
    }
}

/// The dropped clients of all users in `entries`, user by user, each with
/// its username.
pub open spec fn all_gone(entries: Seq<(String, Vec<u128>)>, connected: Seq<u128>) -> Seq<(Seq<char>, u128)>
    decreases entries.len(),
{
    if entries.len() == 0 {
        Seq::empty()
    } else {
        all_gone(entries.drop_last(), connected) + disconnected(entries.last().1@, connected).map_values(
            |id: u128| (entries.last().0@, id),
        )
    }
}

/// Username and client pairs with the usernames taken by view.
pub open spec fn pairs_view(pairs: Seq<(String, u128)>) -> Seq<(Seq<char>, u128)> {
    pairs.map_values(|p: (String, u128)| (p.0@, p.1))
}

/// An id is among the disconnected ones exactly when it is listed and not
/// connected.
proof fn lemma_disconnected_member(ids: Seq<u128>, connected: Seq<u128>)
    ensures
        forall|id: u128|
            #[trigger] disconnected(ids, connected).contains(id) <==> ids.contains(id) && !connected.contains(id),
    decreases ids.len(),
{
    if ids.len() > 0 {
        let init = ids.drop_last();
        let last = ids.last();
        lemma_disconnected_member(init, connected);
        assert(init.push(last) =~= ids);
        assert forall|id: u128|
            #[trigger] disconnected(ids, connected).contains(id) <==> ids.contains(id) && !connected.contains(id) by {
            lemma_push_contains(init, last, id);
            lemma_push_contains(disconnected(init, connected), last, id);
        }
    }
}

/// The ids of `ids` that are not in `connected`, in order.
fn disconnected_ids(ids: &Vec<u128>, connected: &Vec<u128>) -> (gone: Vec<u128>)
    ensures
        gone@ == disconnected(ids@, connected@),
{
    let mut gone: Vec<u128> = Vec::new();
    let mut k: usize = 0;
    while k < ids.len()
        invariant
            k <= ids.len(),
            gone@ == disconnected(ids@.take(k as int), connected@),
        decreases ids.len() - k,
    {
        assert(ids@.take(k + 1).drop_last() =~= ids@.take(k as int));
        if !contains_id(connected, ids[k]) {
            gone.push(ids[k]);
        }
        k += 1;
    }
    assert(ids@.take(ids.len() as int) =~= ids@);
    gone
}

/// Whether `id` is in `list`.
fn contains_id(list: &Vec<u128>, id: u128) -> (r: bool)
    ensures
        r == list@.contains(id),
{
    let mut k: usize = 0;
    while k < list.len()
        invariant
            k <= list.len(),
            forall|j: int| 0 <= j < k ==> list@[j] != id,
        decreases list.len() - k,
    {
        if list[k] == id {
            assert(list@[k as int] == id);
            return true;
        }
        k += 1;
    }
    false
}

/// Once the disconnected clients are dropped, every client left in the room
/// is connected, and a table that filed no username without clients still
/// files none.
pub proof fn lemma_prune_keeps_connected(view: Map<Seq<char>, Set<u128>>, connected: Seq<u128>)
    ensures
        forall|u: Seq<char>, id: u128|
            spec_prune(view, connected).contains_key(u) && #[trigger] spec_prune(view, connected)[u].contains(id)
                ==> connected.contains(id) && view[u].contains(id),
        sockets_wf(view) ==> sockets_wf(spec_prune(view, connected)),
{
}

/// The ids of the clients in the room.
pub open spec fn room_ids(view: Map<Seq<char>, Set<u128>>) -> Set<u128> {
    Set::new(|id: u128| in_room(view, id))
}

/// What client `id` has sent: the messages of all entries of `inbox` for it, in order.
pub open spec fn inbox_of(inbox: Seq<(u128, Vec<ClientMessage>)>, id: u128) -> Seq<ClientMessage>
    decreases inbox.len(),
{
    if inbox.len() == 0 {
        Seq::empty()
    } else {
        inbox_of(inbox.drop_last(), id) + if inbox.last().0 == id {
            inbox.last().1@
        } else {
            Seq::empty()
        }
    }
}

/// `after` is `before` with the queues of the clients in `taken` emptied.
pub open spec fn drained(
    before: Seq<(u128, Vec<ClientMessage>)>,
    after: Seq<(u128, Vec<ClientMessage>)>,
    taken: Set<u128>,
) -> bool {
    &&& after.len() == before.len()
    &&& forall|i: int|
        0 <= i < before.len() ==> {
            &&& (#[trigger] after[i]).0 == before[i].0
            &&& after[i].1@ == if taken.contains(before[i].0) {
                Seq::<ClientMessage>::empty()
            } else {
                before[i].1@
            }
        }
}

/// What client `id` still has to give once the clients in `taken` were read.
pub open spec fn fresh_messages(inbox: Seq<(u128, Vec<ClientMessage>)>, taken: Set<u128>, id: u128) -> Seq<
    ClientMessage,
> {
    if taken.contains(id) {
        Seq::empty()
    } else {
        inbox_of(inbox, id)
    }
}

/// Messages tagged with the username and id of their sender.
pub open spec fn tagged(msgs: Seq<ClientMessage>, user: Seq<char>, id: u128) -> Seq<
    (ClientMessage, Seq<char>, u128),
> {
    msgs.map_values(|m: ClientMessage| (m, user, id))
}

/// The messages of one user's clients, client by client, once the clients in
/// `seen` were read.
pub open spec fn user_messages(
    ids: Seq<u128>,
    user: Seq<char>,
    inbox: Seq<(u128, Vec<ClientMessage>)>,
    seen: Set<u128>,
) -> Seq<(ClientMessage, Seq<char>, u128)>
    decreases ids.len(),
{
    if ids.len() == 0 {
        Seq::empty()
    } else {
        user_messages(ids.drop_last(), user, inbox, seen) + tagged(
            fresh_messages(inbox, seen + ids.drop_last().to_set(), ids.last()),
            user,
            ids.last(),
        )
    }
}

/// The messages of all users listed in `entries`, user by user, each client
/// read once.
pub open spec fn all_messages(entries: Seq<(String, Vec<u128>)>, inbox: Seq<(u128, Vec<ClientMessage>)>) -> Seq<
    (ClientMessage, Seq<char>, u128),
>
    decreases entries.len(),
{
    if entries.len() == 0 {
        Seq::empty()
    } else {
        all_messages(entries.drop_last(), inbox) + user_messages(
            entries.last().1@,
            entries.last().0@,
            inbox,
            all_ids(entries.drop_last()).to_set(),
        )
    }
}

/// Tagged messages with their usernames taken by view.
pub open spec fn tagged_view(msgs: Seq<(ClientMessage, String, u128)>) -> Seq<
    (ClientMessage, Seq<char>, u128),
> {
    msgs.map_values(|t: (ClientMessage, String, u128)| (t.0, t.1@, t.2))
}

/// Reading a client's queues after some queues were emptied.
proof fn lemma_inbox_of_drained(
    before: Seq<(u128, Vec<ClientMessage>)>,
    after: Seq<(u128, Vec<ClientMessage>)>,
    taken: Set<u128>,
    id: u128,
)
    requires
        drained(before, after, taken),
    ensures
        inbox_of(after, id) == fresh_messages(before, taken, id),
    decreases before.len(),
{
    if before.len() > 0 {
        let n = before.len() - 1;
        assert(drained(before.drop_last(), after.drop_last(), taken)) by {
            assert forall|i: int| 0 <= i < before.drop_last().len() implies {
                &&& (#[trigger] after.drop_last()[i]).0 == before.drop_last()[i].0
                &&& after.drop_last()[i].1@ == if taken.contains(before.drop_last()[i].0) {
                    Seq::<ClientMessage>::empty()
                } else {
                    before.drop_last()[i].1@
                }
            } by {
                assert(after[i] == after.drop_last()[i]);
            }
        }
        lemma_inbox_of_drained(before.drop_last(), after.drop_last(), taken, id);
        assert(after[n] == after.last());
        if taken.contains(id) {
            assert(inbox_of(after, id) =~= Seq::<ClientMessage>::empty());
        }
    }
}

/// Collects the messages of the users in `entries` as `get_messages` does,
/// emptying the queues of their clients.
#[verifier::loop_isolation(false)]
pub fn messages_from_entries(entries: &Vec<(String, Vec<u128>)>, inbox: &mut Vec<(u128, Vec<ClientMessage>)>) -> (msgs:
    Vec<(ClientMessage, String, u128)>)
    ensures
        tagged_view(msgs@) == all_messages(entries@, old(inbox)@),
        drained(old(inbox)@, final(inbox)@, all_ids(entries@).to_set()),
{
    let ghost orig = inbox@;
    let mut msgs: Vec<(ClientMessage, String, u128)> = Vec::new();
    let mut i: usize = 0;
    assert(all_ids(entries@.take(0)).to_set() =~= Set::<u128>::empty());
    while i < entries.len()
        invariant
            i <= entries.len(),
            orig == old(inbox)@,
            tagged_view(msgs@) == all_messages(entries@.take(i as int), orig),
            drained(orig, inbox@, all_ids(entries@.take(i as int)).to_set()),
        decreases entries.len() - i,
    {
        let name = &entries[i].0;
        let ids = &entries[i].1;
        let ghost start = tagged_view(msgs@);
        let ghost seen = all_ids(entries@.take(i as int)).to_set();
        let mut k: usize = 0;
        assert(seen + ids@.take(0).to_set() =~= seen);
        while k < ids.len()
            invariant
                k <= ids.len(),
                orig == old(inbox)@,
                tagged_view(msgs@) == start + user_messages(ids@.take(k as int), name@, orig, seen),
                drained(orig, inbox@, seen + ids@.take(k as int).to_set()),
            decreases ids.len() - k,
        {
            let id = ids[k];
            let ghost before = tagged_view(msgs@);
            let ghost taken = seen + ids@.take(k as int).to_set();
            let ghost cur0 = inbox@;
            let mut j: usize = 0;
            while j < inbox.len()
                invariant
                    j <= inbox.len(),
                    inbox.len() == cur0.len(),
                    drained(orig, cur0, taken),
                    tagged_view(msgs@) == before + tagged(inbox_of(cur0.take(j as int), id), name@, id),
                    forall|x: int|
                        0 <= x < cur0.len() ==> {
                            &&& (#[trigger] inbox@[x]).0 == cur0[x].0
                            &&& inbox@[x].1@ == if x < j && cur0[x].0 == id {
                                Seq::<ClientMessage>::empty()
                            } else {
                                cur0[x].1@
                            }
                        },
                decreases inbox.len() - j,
            {
                assert(cur0.take(j + 1).drop_last() =~= cur0.take(j as int));
                assert(cur0.take(j + 1).last() == cur0[j as int]);
                if inbox[j].0 == id {
                    let ghost before_entry = tagged_view(msgs@);
                    assert(inbox@[j as int].1@ == cur0[j as int].1@);
                    let mut m: usize = 0;
                    while m < inbox[j].1.len()
                        invariant
                            j < inbox.len(),
                            m <= inbox@[j as int].1.len(),
                            inbox@[j as int].1@ == cur0[j as int].1@,
                            tagged_view(msgs@) == before_entry + tagged(
                                inbox@[j as int].1@.take(m as int),
                                name@,
                                id,
                            ),
                        decreases inbox@[j as int].1.len() - m,
                    {
                        let ghost prev = msgs@;
                        let msg = inbox[j].1[m].clone();
                        msgs.push((msg, name.clone(), id));
                        assert(tagged_view(msgs@) =~= tagged_view(prev).push(
                            (inbox@[j as int].1@[m as int], name@, id),
                        ));
                        assert(tagged(inbox@[j as int].1@.take(m + 1), name@, id) =~= tagged(
                            inbox@[j as int].1@.take(m as int),
                            name@,
                            id,
                        ).push((inbox@[j as int].1@[m as int], name@, id)));
                        m += 1;
                    }
                    assert(inbox@[j as int].1@.take(inbox@[j as int].1.len() as int) =~= cur0[j as int].1@);
                    assert(tagged(inbox_of(cur0.take(j + 1), id), name@, id) =~= tagged(
                        inbox_of(cur0.take(j as int), id),
                        name@,
                        id,
                    ) + tagged(cur0[j as int].1@, name@, id));
                    inbox.set(j, (id, Vec::new()));
                } else {
                    assert(inbox_of(cur0.take(j + 1), id) =~= inbox_of(cur0.take(j as int), id));
                }
                j += 1;
            }
            proof {
                assert(cur0.take(cur0.len() as int) =~= cur0);
                lemma_inbox_of_drained(orig, cur0, taken, id);
                assert(ids@.take(k + 1).drop_last() =~= ids@.take(k as int));
                assert(ids@.take(k + 1).last() == id);
                assert(seen + ids@.take(k + 1).to_set() =~= taken.insert(id)) by {
                    assert forall|x: u128| #[trigger] ids@.take(k + 1).to_set().contains(x)
                        == ids@.take(k as int).to_set().insert(id).contains(x) by {
                        lemma_push_contains(ids@.take(k as int), id, x);
                        assert(ids@.take(k + 1) =~= ids@.take(k as int).push(id));
                    }
                }
                assert(drained(orig, inbox@, taken.insert(id)));
            }
            k += 1;
        }
        proof {
            assert(ids@.take(ids.len() as int) =~= ids@);
            assert(entries@.take(i + 1).drop_last() =~= entries@.take(i as int));
            assert(all_ids(entries@.take(i + 1)).to_set() =~= seen + ids@.to_set()) by {
                assert(all_ids(entries@.take(i + 1)) == all_ids(entries@.take(i as int)) + ids@);
                assert forall|x: u128| #[trigger] all_ids(entries@.take(i + 1)).to_set().contains(x) == (seen
                    + ids@.to_set()).contains(x) by {
                    lemma_concat_contains(all_ids(entries@.take(i as int)), ids@, x);
                }
            }
        }
        i += 1;
    }
    assert(entries@.take(entries.len() as int) =~= entries@);
    msgs
}

/// What a concatenation holds is what either part holds.
proof fn lemma_concat_contains<A>(a: Seq<A>, b: Seq<A>, x: A)
    ensures
        (a + b).contains(x) <==> a.contains(x) || b.contains(x),
{
    if a.contains(x) {
        let j = choose|j: int| 0 <= j < a.len() && a[j] == x;
        assert((a + b)[j] == x);
    }
    if b.contains(x) {
        let j = choose|j: int| 0 <= j < b.len() && b[j] == x;
        assert((a + b)[a.len() + j] == x);
    }
    if (a + b).contains(x) {
        let j = choose|j: int| 0 <= j < (a + b).len() && (a + b)[j] == x;
        if j < a.len() {
            assert(a[j] == x);
        } else {
            assert(b[j - a.len()] == x);
        }
    }
}

/// Nothing is left to read from queues that were all read.
proof fn lemma_nothing_fresh(ids: Seq<u128>, user: Seq<char>, inbox: Seq<(u128, Vec<ClientMessage>)>, seen: Set<u128>)
    requires
        forall|k: int| 0 <= k < ids.len() ==> inbox_of(inbox, #[trigger] ids[k]) == Seq::<ClientMessage>::empty(),
    ensures
        user_messages(ids, user, inbox, seen) == Seq::<(ClientMessage, Seq<char>, u128)>::empty(),
    decreases ids.len(),
{
    if ids.len() > 0 {
        lemma_nothing_fresh(ids.drop_last(), user, inbox, seen);
        assert(inbox_of(inbox, ids[ids.len() - 1]) == Seq::<ClientMessage>::empty());
        assert(tagged(
            fresh_messages(inbox, seen + ids.drop_last().to_set(), ids.last()),
            user,
            ids.last(),
        ) =~= Seq::empty());
        assert(user_messages(ids, user, inbox, seen) =~= Seq::empty());
    }
}

proof fn lemma_no_messages_left(entries: Seq<(String, Vec<u128>)>, inbox: Seq<(u128, Vec<ClientMessage>)>)
    requires
        forall|a: int, k: int|
            0 <= a < entries.len() && 0 <= k < entries[a].1@.len() ==> inbox_of(inbox, #[trigger] entries[a].1@[k])
                == Seq::<ClientMessage>::empty(),
    ensures
        all_messages(entries, inbox) == Seq::<(ClientMessage, Seq<char>, u128)>::empty(),
    decreases entries.len(),
{
    if entries.len() > 0 {
        let init = entries.drop_last();
        assert forall|a: int, k: int| 0 <= a < init.len() && 0 <= k < init[a].1@.len() implies inbox_of(
            inbox,
            #[trigger] init[a].1@[k],
        ) == Seq::<ClientMessage>::empty() by {
            assert(init[a] == entries[a]);
        }
        lemma_no_messages_left(init, inbox);
        let last = entries[entries.len() - 1];
        assert forall|k: int| 0 <= k < last.1@.len() implies inbox_of(inbox, #[trigger] last.1@[k])
            == Seq::<ClientMessage>::empty() by {}
        lemma_nothing_fresh(last.1@, last.0@, inbox, all_ids(init).to_set());
        assert(all_messages(entries, inbox) =~= Seq::empty());
    }
}

/// Taking the messages empties the queues of the room's clients: a second
/// collection, however the table is listed then, finds nothing, as long as
/// no client sent anything in between.
pub proof fn lemma_get_messages_drains(
    view: Map<Seq<char>, Set<u128>>,
    entries: Seq<(String, Vec<u128>)>,
    before: Seq<(u128, Vec<ClientMessage>)>,
    after: Seq<(u128, Vec<ClientMessage>)>,
)
    requires
        lists_table(view, entries),
        drained(before, after, room_ids(view)),
    ensures
        all_messages(entries, after) == Seq::<(ClientMessage, Seq<char>, u128)>::empty(),
        forall|i: int|
            0 <= i < after.len() && room_ids(view).contains(before[i].0) ==> (#[trigger] after[i]).1@
                == Seq::<ClientMessage>::empty(),
{
    assert forall|a: int, k: int| 0 <= a < entries.len() && 0 <= k < entries[a].1@.len() implies inbox_of(
        after,
        #[trigger] entries[a].1@[k],
    ) == Seq::<ClientMessage>::empty() by {
        let id = entries[a].1@[k];
        assert(entries[a].1@.contains(id));
        assert(entries[a].1@.to_set().contains(id));
        assert(view.contains_key(entries[a].0@) && view[entries[a].0@].contains(id));
        assert(room_ids(view).contains(id));
        lemma_inbox_of_drained(before, after, room_ids(view), id);
    }
    lemma_no_messages_left(entries, after);
}

/// The socket table after client `id` of user `u` leaves.
pub open spec fn spec_remove_client(view: Map<Seq<char>, Set<u128>>, u: Seq<char>, id: u128) -> Map<
    Seq<char>,
    Set<u128>,
> {
    if !view.contains_key(u) {
        view
    } else if view[u].remove(id).is_empty() {
        view.remove(u)
    } else {
        view.insert(u, view[u].remove(id))
    }
}

/// A well-formed socket table files no username without a client.
pub open spec fn sockets_wf(view: Map<Seq<char>, Set<u128>>) -> bool {
    forall|u: Seq<char>| #[trigger] view.contains_key(u) ==> !view[u].is_empty()
}

/// The socket table after client `id` of user `u` joins.
pub open spec fn spec_add_client(view: Map<Seq<char>, Set<u128>>, u: Seq<char>, id: u128) -> Map<
    Seq<char>,
    Set<u128>,
> {
    view.insert(
        u,
        if view.contains_key(u) {
            view[u]
        } else {
            Set::empty()
        }.insert(id),
    )
}

/// Joining and leaving keep every username in the room with at least one
/// client, and a client that joins and then leaves leaves the room's
/// clients as they were.
pub proof fn lemma_join_then_leave(view: Map<Seq<char>, Set<u128>>, u: Seq<char>, id: u128)
    requires
        sockets_wf(view),
        !(view.contains_key(u) && view[u].contains(id)),
    ensures
        sockets_wf(spec_add_client(view, u, id)),
        sockets_wf(spec_remove_client(view, u, id)),
        spec_remove_client(spec_add_client(view, u, id), u, id) == view,
{
    let added = spec_add_client(view, u, id);
    assert(added[u].contains(id));
    let back = spec_remove_client(added, u, id);
    if view.contains_key(u) {
        assert(added[u].remove(id) =~= view[u]);
        assert(back =~= view);
    } else {
        assert(added[u].remove(id) =~= Set::<u128>::empty());
        assert(back =~= view);
    }
    assert forall|v: Seq<char>| #[trigger] spec_remove_client(view, u, id).contains_key(v) implies !spec_remove_client(view, u, id)[v].is_empty() by {
        if view.contains_key(u) && v == u {
            assert(!view[u].remove(id).is_empty());
        }
    }
}

} // verus!
