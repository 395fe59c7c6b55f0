use vstd::prelude::*;
use vstd::string::*;

use dashmap::DashSet;

use crate::clients::ClientsManager;
use crate::common::RoomInfo;
use crate::ids::{generate_room_id, is_upper_hex};
use crate::room::check_join;
use crate::room_update::{hibernation_step, hibernating_after, HibernationChange};
use crate::util::owned;

verus! {

broadcast use vstd::string::group_string_axioms;

/// The usernames that a `DashSet` of visitors holds.
pub uninterp spec fn name_set(s: DashSet<String>) -> Set<Seq<char>>;

/// `DashSet::new`: no visitor yet.
#[verifier::external_body]
fn names_new() -> (s: DashSet<String>)
    ensures
        name_set(s).is_empty(),
{
    DashSet::new()
}

/// `DashSet::insert`: adds a username.
#[verifier::external_body]
fn names_insert(s: &mut DashSet<String>, name: String)
    ensures
        name_set(*final(s)) == name_set(*old(s)).insert(name@),
{
    s.insert(name);
}

/// `DashSet::iter`, each username handed out as a `String`: every username
/// exactly once.
#[verifier::external_body]
fn names_list(s: &DashSet<String>) -> (names: Vec<String>)
    ensures
        forall|a: int, b: int|
            0 <= a < b < names.len() ==> #[trigger] names@[a]@ != #[trigger] names@[b]@,
        forall|a: int| 0 <= a < names.len() ==> name_set(*s).contains(#[trigger] names@[a]@),
        forall|u: Seq<char>| #[trigger]
            name_set(*s).contains(u) ==> exists|a: int| 0 <= a < names.len() && #[trigger] names@[a]@ == u,
{
    s.iter().map(|n| n.key().clone()).collect()
}

/// Seconds of inactivity after which a room falls asleep: half an hour in
/// edit mode, a quarter of an hour otherwise.
pub open spec fn spec_hibernate_timeout(edit_mode: bool) -> i64 {
    if edit_mode {
        1800
    } else {
        900
    }
}

/// Seconds of inactivity after which a room is removed: nine hours.
pub open spec fn spec_full_timeout() -> i64 {
    32400
}

/// What a room is and how it is doing, apart from its simulation.
#[derive(Debug)]
pub struct RoomMetadata {
    pub name: String,
    pub environment: String,
    pub password: Option<String>,
    pub hibernate_timeout: i64,
    pub full_timeout: i64,
    /// List of usernames of users who have visited the room
    pub visitors: DashSet<String>,
    /// Whether the room is in edit mode, if so, IoTScape messages are sent to NetsBlox server instead of being handled locally by VM
    pub edit_mode: bool,
    pub hibernating: bool,
    pub hibernating_since: i64,
    /// Last time the room was announced to the API server
    pub last_announce_time: i64,
}

impl RoomMetadata {
    /// The usernames of the room's visitors.
    pub open spec fn visitor_names(&self) -> Set<Seq<char>> {
        name_set(self.visitors)
    }

    pub fn new(
        name: String,
        environment: String,
        password: Option<String>,
        hibernate_timeout: i64,
        full_timeout: i64,
        edit_mode: bool,
    ) -> (m: Self)
        ensures
            m.name == name,
            m.environment == environment,
            m.password == password,
            m.hibernate_timeout == hibernate_timeout,
            m.full_timeout == full_timeout,
            m.visitor_names().is_empty(),
            m.edit_mode == edit_mode,
            !m.hibernating,
            m.hibernating_since == 0,
            m.last_announce_time == 0,
    {
        RoomMetadata {
            name,
            environment,
            password,
            hibernate_timeout,
            full_timeout,
            visitors: names_new(),
            edit_mode,
            hibernating: false,
            hibernating_since: 0,
            last_announce_time: 0,
        }
    }

    /// The metadata of a room being created: a random room id where no name
    /// is given, the `Default` environment where none is given, and the
    /// timeouts of its mode.
    pub fn for_new_room(name: Option<String>, environment: Option<String>, password: Option<String>, edit_mode: bool) -> (m:
        Self)
        ensures
            match name {
                Some(n) => m.name == n,
                None => {
                    &&& m.name@.len() == 9
                    &&& m.name@.subrange(0, 4) == "Room"@
                    &&& forall|i: int| 4 <= i < 9 ==> is_upper_hex(#[trigger] m.name@[i])
                },
            },
            m.environment@ == match environment {
                Some(e) => e@,
                None => "Default"@,
            },
            m.password == password,
            m.hibernate_timeout == spec_hibernate_timeout(edit_mode),
            m.full_timeout == spec_full_timeout(),
            m.visitor_names().is_empty(),
            m.edit_mode == edit_mode,
            !m.hibernating,
    {
        let name = match name {
            Some(n) => n,
            None => generate_room_id(None),
        };
        let environment = match environment {
            Some(e) => e,
            None => owned("Default"),
        };
        let hibernate_timeout: i64 = if edit_mode {
            1800
        } else {
            900
        };
        Self::new(name, environment, password, hibernate_timeout, 32400, edit_mode)
    }

    /// How the room is listed by the API: under its name, on `server`.
    pub fn get_room_info(&self, server: String) -> (info: RoomInfo)
        ensures
            info.id@ == self.name@,
            info.environment@ == self.environment@,
            info.server == server,
            info.creator@ == "TODO"@,
            info.has_password == self.password is Some,
            info.is_hibernating == self.hibernating,
            forall|a: int, b: int|
                0 <= a < b < info.visitors.len() ==> #[trigger] info.visitors@[a]@ != #[trigger] info.visitors@[b]@,
            forall|a: int| 0 <= a < info.visitors.len() ==> self.visitor_names().contains(#[trigger] info.visitors@[a]@),
            forall|u: Seq<char>| #[trigger]
                self.visitor_names().contains(u) ==> exists|a: int|
                    0 <= a < info.visitors.len() && #[trigger] info.visitors@[a]@ == u,
    {
        let visitors = names_list(&self.visitors);
        assert forall|u: Seq<char>| #[trigger] self.visitor_names().contains(u) implies exists|a: int|
            0 <= a < visitors.len() && #[trigger] visitors@[a]@ == u by {
            assert(name_set(self.visitors).contains(u));
        }
        RoomInfo {
            id: self.name.clone(),
            environment: self.environment.clone(),
            server,
            creator: owned("TODO"),
            has_password: self.password.is_some(),
            is_hibernating: self.hibernating,
            visitors,
        }
    }

    /// Check if the room should hibernate or wake up: it falls asleep at `now`
    /// when its last client has gone, and wakes when a client is back.
    pub fn check_hibernation_state(&mut self, clients_manager: &ClientsManager, now: i64)
        ensures
            final(self).hibernating == clients_manager.view().dom().is_empty(),
            final(self).hibernating_since == if !old(self).hibernating && final(self).hibernating {
                now
            } else {
                old(self).hibernating_since
            },
            final(self).name == old(self).name,
            final(self).environment == old(self).environment,
            final(self).password == old(self).password,
            final(self).hibernate_timeout == old(self).hibernate_timeout,
            final(self).full_timeout == old(self).full_timeout,
            final(self).visitors == old(self).visitors,
            final(self).edit_mode == old(self).edit_mode,
            final(self).last_announce_time == old(self).last_announce_time,
    {
        let change = hibernation_step(self.hibernating, clients_manager.is_empty());
        match change {
            HibernationChange::Start => {
                self.hibernating = true;
                self.hibernating_since = now;
            },
            HibernationChange::End => {
                self.hibernating = false;
            },
            HibernationChange::Stay => {},
        }
    }

    /// Whether a room that has had no interaction since `last_interaction`
    /// falls asleep at `now`: it does when it is awake and has been idle for
    /// longer than its hibernation timeout.
    pub fn idle_too_long(&self, now: i64, last_interaction: i64) -> (r: bool)
        ensures
            r == (!self.hibernating && now - last_interaction > self.hibernate_timeout),
    {
        let idle: i128 = (now as i128) - (last_interaction as i128);
        !self.hibernating && idle > self.hibernate_timeout as i128
    }

    /// Whether a room that has had no interaction since `last_interaction` is
    /// removed at `now`: it is when it has been idle for longer than its full
    /// timeout, asleep or not.
    pub fn expired(&self, now: i64, last_interaction: i64) -> (r: bool)
        ensures
            r == (now - last_interaction > self.full_timeout),
    {
        let idle: i128 = (now as i128) - (last_interaction as i128);
        idle > self.full_timeout as i128
    }

    /// Put a room that has been idle too long to sleep at `now`, sending its
    /// clients away.
    pub fn hibernate_idle(&mut self, clients_manager: &mut ClientsManager, now: i64)
        ensures
            final(self).hibernating,
            final(self).hibernating_since == now,
            final(clients_manager).view().dom().is_empty(),
            final(self).name == old(self).name,
            final(self).visitors == old(self).visitors,
            final(self).password == old(self).password,
    {
        self.hibernating = true;
        self.hibernating_since = now;
        clients_manager.clear();
    }

    /// Let a user's client into the room: where the room has a password the
    /// user must give it. The user is then a visitor, and the client is filed
    /// under the username.
    pub fn join(&mut self, clients_manager: &mut ClientsManager, username: &String, password: &String, peer_id: u128) -> (r:
        Result<(), String>)
        ensures
            match old(self).password {
                Some(p) => p@ != password@,
                None => false,
            } ==> {
                &&& r matches Err(e) && e@ == "Wrong password!"@
                &&& final(self).visitors == old(self).visitors
                &&& final(clients_manager).view() == old(clients_manager).view()
            },
            !(match old(self).password {
                Some(p) => p@ != password@,
                None => false,
            }) ==> {
                &&& r is Ok
                &&& final(self).visitor_names() == old(self).visitor_names().insert(username@)
                &&& final(clients_manager).view() == old(clients_manager).view().insert(
                    username@,
                    if old(clients_manager).view().contains_key(username@) {
                        old(clients_manager).view()[username@]
                    } else {
                        Set::empty()
                    }.insert(peer_id),
                )
            },
            final(self).name == old(self).name,
            final(self).password == old(self).password,
            final(self).hibernating == old(self).hibernating,
    {
        match check_join(true, &self.password, password, &self.name) {
            Err(e) => {
                proof {
                    reveal_strlit("Wrong password!");
                }
                Err(e)
            },
            Ok(()) => {
                names_insert(&mut self.visitors, username.clone());
                clients_manager.add_client(username, peer_id);
                Ok(())
            },
        }
    }
}

} // verus!
