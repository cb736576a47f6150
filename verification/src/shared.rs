//! The state the threads of a node share: the schedules it holds, the
//! published election state, pending actions, errors and failed roles.
//!
//! Every change that touches several of these at once is made here, so that
//! the rules that tie them together hold after each call.

use vstd::prelude::*;
use vstd::hash_map::StringHashMap;
use vstd::hash_set::StringHashSet;
use vstd::utf8::encode_utf8;

use std::collections::BTreeMap;
use std::sync::Arc;
use std::time::SystemTime;

use crate::apply::{RenderOutcome, RoleRun};
use crate::elect::{ElectionState, Epoch};
use crate::fetch::PublicState;
use crate::id::Id;
use crate::json::{json_text, json_text_of, json_view, Json, JsonView};
use crate::schedule::{hash, sha1_hex, Schedule, ScheduleView, opt_view};
use crate::id_collections::IdMap;
use crate::peers::{Peer, Peers, merged_peer};
use crate::time_util::system_time_at_millis;

verus! {

/// Why an action was not queued.
#[derive(Debug, PartialEq, Eq)]
pub enum PushActionError {
    TooManyRequests,
    NotALeader,
}

/// What the scheduler of the leader runs with: valid while the epoch it was
/// made in lasts.
pub struct LeaderCookie {
    epoch: Epoch,
    pub parent_schedules: Vec<Schedule>,
    pub actions: BTreeMap<u64, Arc<Json>>,
}

/// The views of some schedules.
pub open spec fn schedules_view(v: Seq<Schedule>) -> Seq<ScheduleView> {
    v.map_values(|s: Schedule| s@)
}

impl LeaderCookie {
    pub closed spec fn epoch_view(&self) -> Epoch {
        self.epoch
    }

    pub closed spec fn parents_view(&self) -> Seq<ScheduleView> {
        schedules_view(self.parent_schedules@)
    }

    pub closed spec fn actions_view(&self) -> Map<u64, Arc<Json>> {
        self.actions@
    }

    /// The epoch the cookie was made in.
    pub fn epoch(&self) -> (r: Epoch)
        ensures
            r == self.epoch_view(),
    {
        self.epoch
    }
}

/// The shared state; `D` is the debugging output of the last scheduler run.
pub struct SharedState<D> {
    last_known_schedule: Option<Schedule>,
    stable_schedule: Option<Schedule>,
    owned_schedule: Option<Schedule>,
    debug_info: Option<D>,
    election: ElectionState,
    actions: BTreeMap<u64, Arc<Json>>,
    errors: StringHashMap<String>,
    failed_roles: StringHashSet,
    parent_schedules: Option<Vec<Schedule>>,
    peers: Peers,
}

impl<D> SharedState<D> {
    /// The peers known to this node.
    pub closed spec fn known_peers(&self) -> Peers {
        self.peers
    }

    /// The peer list is a well-formed map.
    pub open spec fn well_formed(&self) -> bool {
        self.known_peers().peers.well_formed()
    }

    /// The last schedule known to this node.
    pub closed spec fn last_known(&self) -> Option<ScheduleView> {
        opt_view(self.last_known_schedule)
    }

    /// The schedule this node renders from.
    pub closed spec fn stable(&self) -> Option<ScheduleView> {
        opt_view(self.stable_schedule)
    }

    /// The schedule this node computed as leader.
    pub closed spec fn owned(&self) -> Option<ScheduleView> {
        opt_view(self.owned_schedule)
    }

    pub closed spec fn debug(&self) -> Option<D> {
        self.debug_info
    }

    pub closed spec fn election_view(&self) -> ElectionState {
        self.election
    }

    pub closed spec fn actions_view(&self) -> Map<u64, Arc<Json>> {
        self.actions@
    }

    pub closed spec fn errors_view(&self) -> Map<Seq<char>, String> {
        self.errors@
    }

    pub closed spec fn failed_roles_view(&self) -> Set<Seq<char>> {
        self.failed_roles@
    }

    pub closed spec fn parents(&self) -> Option<Seq<ScheduleView>> {
        match self.parent_schedules {
            Some(v) => Some(schedules_view(v@)),
            None => None,
        }
    }

    /// The state a node starts with: the schedule it kept from before, no
    /// leader, nothing pending and no errors.
    pub fn new(old_schedule: Option<Schedule>, deadline: SystemTime) -> (r: SharedState<D>)
        ensures
            r.last_known() == opt_view(old_schedule),
            r.stable() is None,
            r.owned() is None,
            r.debug() is None,
            r.election_view() == ElectionState::blank_spec(deadline),
            r.actions_view() == Map::<u64, Arc<Json>>::empty(),
            r.errors_view() == Map::<Seq<char>, String>::empty(),
            r.failed_roles_view() == Set::<Seq<char>>::empty(),
            r.parents() is None,
            r.well_formed(),
            r.known_peers().peers@ == Map::<Seq<u8>, Peer>::empty(),
            r.known_peers().timestamp == system_time_at_millis(0),
    {
        SharedState {
            last_known_schedule: old_schedule,
            stable_schedule: None,
            owned_schedule: None,
            debug_info: None,
            election: ElectionState::blank(deadline),
            actions: BTreeMap::new(),
            errors: StringHashMap::new(),
            failed_roles: StringHashSet::new(),
            parent_schedules: None,
            peers: Peers::new(),
        }
    }

    /// The last known schedule.
    pub fn schedule(&self) -> (r: Option<&Schedule>)
        ensures
            match r {
                Some(s) => self.last_known() == Some(s@),
                None => self.last_known() is None,
            },
    {
        self.last_known_schedule.as_ref()
    }

    /// The schedule this node renders from.
    pub fn stable_schedule(&self) -> (r: Option<&Schedule>)
        ensures
            match r {
                Some(s) => self.stable() == Some(s@),
                None => self.stable() is None,
            },
    {
        self.stable_schedule.as_ref()
    }

    /// The schedule this node computed as the leader.
    pub fn owned_schedule(&self) -> (r: Option<&Schedule>)
        ensures
            match r {
                Some(s) => self.owned() == Some(s@),
                None => self.owned() is None,
            },
    {
        self.owned_schedule.as_ref()
    }

    /// Debugging output of the last scheduler run.
    pub fn scheduler_debug_info(&self) -> (r: Option<&D>)
        ensures
            match r {
                Some(d) => self.debug() == Some(*d),
                None => self.debug() is None,
            },
    {
        self.debug_info.as_ref()
    }

    /// The published election state.
    pub fn election(&self) -> (r: &ElectionState)
        ensures
            *r == self.election_view(),
    {
        &self.election
    }

    /// The peers known to this node.
    pub fn peers(&self) -> (r: &Peers)
        ensures
            *r == self.known_peers(),
    {
        &self.peers
    }

    /// Takes a report of the peers made at `time` (see `Peers::set_peers`).
    pub fn set_peers(&mut self, time: SystemTime, peers: &IdMap<Peer>)
        requires
            old(self).well_formed(),
            peers.well_formed(),
        ensures
            final(self).well_formed(),
            final(self).known_peers().timestamp == time,
            final(self).known_peers().peers@.dom() == peers@.dom(),
            forall|k: Seq<u8>| #[trigger] peers@.contains_key(k) ==> final(self).known_peers().peers@[k]@ == merged_peer(
                if old(self).known_peers().peers@.contains_key(k) { Some(old(self).known_peers().peers@[k]@) } else { None },
                peers@[k]@,
            ),
            final(self).last_known() == old(self).last_known(),
            final(self).stable() == old(self).stable(),
            final(self).owned() == old(self).owned(),
            final(self).debug() == old(self).debug(),
            final(self).election_view() == old(self).election_view(),
            final(self).actions_view() == old(self).actions_view(),
            final(self).errors_view() == old(self).errors_view(),
            final(self).failed_roles_view() == old(self).failed_roles_view(),
            final(self).parents() == old(self).parents(),
    {
        let updated = self.peers.set_peers(time, peers);
        self.peers = updated;
    }

    /// Errors by domain.
    pub fn errors(&self) -> (r: &StringHashMap<String>)
        ensures
            r@ == self.errors_view(),
    {
        &self.errors
    }

    /// Roles whose last rendering failed.
    pub fn failed_roles(&self) -> (r: &StringHashSet)
        ensures
            r@ == self.failed_roles_view(),
    {
        &self.failed_roles
    }

    /// Actions waiting for the scheduler.
    pub fn pending_actions(&self) -> (r: BTreeMap<u64, Arc<Json>>)
        ensures
            r@ == self.actions_view(),
    {
        self.actions.clone()
    }

    /// Whether the schedule rendered from has this hash.
    pub fn is_current(&self, hash: &str) -> (r: bool)
        ensures
            r == (self.stable() matches Some(s) && s.hash == hash@),
    {
        match &self.stable_schedule {
            Some(s) => crate::text::str_eq(s.hash.as_str(), hash),
            None => false,
        }
    }

    /// Whether an action is still pending.
    pub fn check_action(&self, action: u64) -> (r: bool)
        ensures
            r == self.actions_view().contains_key(action),
    {
        broadcast use vstd::laws_cmp::group_laws_cmp, vstd::std_specs::btree::group_btree_axioms;
        self.actions.contains_key(&action)
    }

    pub fn set_schedule_debug_info(&mut self, debug: D)
        ensures
            final(self).known_peers() == old(self).known_peers(),
            final(self).debug() == Some(debug),
            final(self).last_known() == old(self).last_known(),
            final(self).stable() == old(self).stable(),
            final(self).owned() == old(self).owned(),
            final(self).election_view() == old(self).election_view(),
            final(self).actions_view() == old(self).actions_view(),
            final(self).errors_view() == old(self).errors_view(),
            final(self).failed_roles_view() == old(self).failed_roles_view(),
            final(self).parents() == old(self).parents(),
    {
        self.debug_info = Some(debug);
    }

    /// A schedule a follower fetched becomes the stable one when it comes
    /// from the leader this node follows; otherwise it is ignored.
    pub fn set_schedule_by_follower(&mut self, schedule: &Schedule)
        ensures
            final(self).known_peers() == old(self).known_peers(),
            final(self).stable() == if old(self).election_view().accepts_follower_spec(schedule.origin@) {
                Some(schedule@)
            } else {
                old(self).stable()
            },
            final(self).last_known() == old(self).last_known(),
            final(self).owned() == old(self).owned(),
            final(self).debug() == old(self).debug(),
            final(self).election_view() == old(self).election_view(),
            final(self).actions_view() == old(self).actions_view(),
            final(self).errors_view() == old(self).errors_view(),
            final(self).failed_roles_view() == old(self).failed_roles_view(),
            final(self).parents() == old(self).parents(),
    {
        if self.election.accepts_follower_schedule(&schedule.origin) {
            self.stable_schedule = Some(schedule.duplicate());
        }
    }

    /// A schedule the leader computed with `cookie` becomes the last known,
    /// owned and stable one, with the scheduler's debugging output, while
    /// the node still leads the cookie's epoch; the schedule is handed back
    /// then, to be passed on for rendering. Otherwise nothing changes.
    pub fn set_schedule_by_leader(&mut self, cookie: LeaderCookie, val: Schedule, debug: D) -> (r: Option<Schedule>)
        ensures
            final(self).known_peers() == old(self).known_peers(),
            old(self).election_view().accepts_leader_spec(cookie.epoch_view()) ==> {
                &&& r matches Some(s) && s@ == val@
                &&& final(self).last_known() == Some(val@)
                &&& final(self).owned() == Some(val@)
                &&& final(self).stable() == Some(val@)
                &&& final(self).debug() == Some(debug)
            },
            !old(self).election_view().accepts_leader_spec(cookie.epoch_view()) ==> {
                &&& r is None
                &&& final(self).last_known() == old(self).last_known()
                &&& final(self).owned() == old(self).owned()
                &&& final(self).stable() == old(self).stable()
                &&& final(self).debug() == old(self).debug()
            },
            final(self).election_view() == old(self).election_view(),
            final(self).actions_view() == old(self).actions_view(),
            final(self).errors_view() == old(self).errors_view(),
            final(self).failed_roles_view() == old(self).failed_roles_view(),
            final(self).parents() == old(self).parents(),
    {
        if self.election.accepts_leader_schedule(cookie.epoch) {
            self.last_known_schedule = Some(val.duplicate());
            self.owned_schedule = Some(val.duplicate());
            self.stable_schedule = Some(val.duplicate());
            self.debug_info = Some(debug);
            Some(val)
        } else {
            None
        }
    }

    /// Records an error of a domain, replacing the one it had.
    pub fn set_error(&mut self, domain: &str, value: String)
        ensures
            final(self).known_peers() == old(self).known_peers(),
            final(self).errors_view() == old(self).errors_view().insert(domain@, value),
            final(self).last_known() == old(self).last_known(),
            final(self).stable() == old(self).stable(),
            final(self).owned() == old(self).owned(),
            final(self).debug() == old(self).debug(),
            final(self).election_view() == old(self).election_view(),
            final(self).actions_view() == old(self).actions_view(),
            final(self).failed_roles_view() == old(self).failed_roles_view(),
            final(self).parents() == old(self).parents(),
    {
        self.errors.insert(domain.to_owned(), value);
    }

    /// Forgets the error of a domain.
    pub fn clear_error(&mut self, domain: &str)
        ensures
            final(self).known_peers() == old(self).known_peers(),
            final(self).errors_view() == old(self).errors_view().remove(domain@),
            final(self).last_known() == old(self).last_known(),
            final(self).stable() == old(self).stable(),
            final(self).owned() == old(self).owned(),
            final(self).debug() == old(self).debug(),
            final(self).election_view() == old(self).election_view(),
            final(self).actions_view() == old(self).actions_view(),
            final(self).failed_roles_view() == old(self).failed_roles_view(),
            final(self).parents() == old(self).parents(),
    {
        self.errors.remove(domain);
    }

    /// Publishes a new election state. When it says this node does not
    /// lead, what only a leader keeps is dropped: pending actions, the owned
    /// schedule, the scheduler's debugging output and the errors of the
    /// scheduler. The last stable moment is kept when the new state does not
    /// know one.
    pub fn update_election(&mut self, elect: ElectionState)
        ensures
            final(self).known_peers() == old(self).known_peers(),
            final(self).election_view() == old(self).election_view().merged_spec(elect),
            !elect.is_leader ==> {
                &&& final(self).actions_view() == Map::<u64, Arc<Json>>::empty()
                &&& final(self).owned() is None
                &&& final(self).debug() is None
                &&& final(self).errors_view() == old(self).errors_view()
                    .remove("reload_configs"@).remove("scheduler_load"@).remove("scheduler"@)
            },
            elect.is_leader ==> {
                &&& final(self).actions_view() == old(self).actions_view()
                &&& final(self).owned() == old(self).owned()
                &&& final(self).debug() == old(self).debug()
                &&& final(self).errors_view() == old(self).errors_view()
            },
            final(self).last_known() == old(self).last_known(),
            final(self).stable() == old(self).stable(),
            final(self).failed_roles_view() == old(self).failed_roles_view(),
            final(self).parents() == old(self).parents(),
    {
        if elect.drops_leader_data() {
            self.actions.clear();
            self.owned_schedule = None;
            self.debug_info = None;
            self.errors.remove("reload_configs");
            self.errors.remove("scheduler_load");
            self.errors.remove("scheduler");
        }
        let merged = self.election.merged(elect);
        self.election = merged;
    }

    /// Schedules that the next scheduler run starts from.
    pub fn set_parents(&mut self, parents: Vec<Schedule>)
        ensures
            final(self).known_peers() == old(self).known_peers(),
            final(self).parents() == Some(schedules_view(parents@)),
            final(self).last_known() == old(self).last_known(),
            final(self).stable() == old(self).stable(),
            final(self).owned() == old(self).owned(),
            final(self).debug() == old(self).debug(),
            final(self).election_view() == old(self).election_view(),
            final(self).actions_view() == old(self).actions_view(),
            final(self).errors_view() == old(self).errors_view(),
            final(self).failed_roles_view() == old(self).failed_roles_view(),
    {
        self.parent_schedules = Some(parents);
    }

    /// What the scheduler may run with, while this node leads and the
    /// fetcher says the leader's view is stable: the current epoch, the
    /// parent schedules set for it (taken, so that they are used once) or
    /// else the stable schedule, and the pending actions. `None` otherwise,
    /// and nothing changes then.
    pub fn leader_cookie(&mut self, fetch_state: &PublicState) -> (r: Option<LeaderCookie>)
        ensures
            final(self).known_peers() == old(self).known_peers(),
            (r is Some) == (old(self).election_view().is_leader && fetch_state@ is StableLeader),
            match r {
                Some(c) => {
                    &&& c.epoch_view() == old(self).election_view().epoch
                    &&& c.parents_view() == match old(self).parents() {
                        Some(p) => p,
                        None => match old(self).stable() {
                            Some(s) => seq![s],
                            None => Seq::empty(),
                        },
                    }
                    &&& c.actions_view() == old(self).actions_view()
                    &&& final(self).parents() is None
                },
                None => final(self).parents() == old(self).parents(),
            },
            final(self).last_known() == old(self).last_known(),
            final(self).stable() == old(self).stable(),
            final(self).owned() == old(self).owned(),
            final(self).debug() == old(self).debug(),
            final(self).election_view() == old(self).election_view(),
            final(self).actions_view() == old(self).actions_view(),
            final(self).errors_view() == old(self).errors_view(),
            final(self).failed_roles_view() == old(self).failed_roles_view(),
    {
        if !self.election.is_leader || !fetch_state.is_stable_leader() {
            return None;
        }
        let parents = match self.parent_schedules.take() {
            Some(p) => p,
            None => {
                let mut v: Vec<Schedule> = Vec::new();
                match &self.stable_schedule {
                    Some(s) => v.push(s.duplicate()),
                    None => {},
                }
                proof {
                    assert(schedules_view(v@) =~= match self.stable() {
                        Some(s) => seq![s],
                        None => Seq::<ScheduleView>::empty(),
                    });
                }
                v
            },
        };
        Some(LeaderCookie { epoch: self.election.epoch, parent_schedules: parents, actions: self.actions.clone() })
    }

    /// Brings the actions of a cookie up to date while its epoch lasts;
    /// whether it still lasts.
    pub fn refresh_cookie(&self, cookie: &mut LeaderCookie) -> (r: bool)
        ensures
            r == (old(cookie).epoch_view() == self.election_view().epoch),
            r ==> final(cookie).actions_view() == self.actions_view(),
            !r ==> final(cookie).actions_view() == old(cookie).actions_view(),
            final(cookie).epoch_view() == old(cookie).epoch_view(),
            final(cookie).parents_view() == old(cookie).parents_view(),
    {
        if cookie.epoch == self.election.epoch {
            cookie.actions = self.actions.clone();
            true
        } else {
            false
        }
    }

    /// Remembers that a role failed to render.
    pub fn mark_role_failure(&mut self, role_name: &str)
        ensures
            final(self).known_peers() == old(self).known_peers(),
            final(self).failed_roles_view() == old(self).failed_roles_view().insert(role_name@),
            final(self).last_known() == old(self).last_known(),
            final(self).stable() == old(self).stable(),
            final(self).owned() == old(self).owned(),
            final(self).debug() == old(self).debug(),
            final(self).election_view() == old(self).election_view(),
            final(self).actions_view() == old(self).actions_view(),
            final(self).errors_view() == old(self).errors_view(),
            final(self).parents() == old(self).parents(),
    {
        if !self.failed_roles.contains(role_name) {
            self.failed_roles.insert(role_name.to_owned());
        } else {
            assert(self.failed_roles@.insert(role_name@) =~= self.failed_roles@);
        }
    }

    /// Records a role's turn while applying a schedule: a successful
    /// rendering clears the role's failure, a failed one or one that could
    /// not start marks it. When the renderer's files could not be written
    /// nothing is recorded and the remaining roles are not applied: the
    /// result says whether to go on with them.
    pub fn record_role_run(&mut self, role_name: &str, run: RoleRun) -> (go_on: bool)
        ensures
            final(self).known_peers() == old(self).known_peers(),
            go_on == !(run is WriteFailed),
            final(self).failed_roles_view() == match run {
                RoleRun::WriteFailed => old(self).failed_roles_view(),
                RoleRun::Ran(RenderOutcome::Succeeded) => old(self).failed_roles_view().remove(role_name@),
                RoleRun::Ran(_) => old(self).failed_roles_view().insert(role_name@),
            },
            final(self).last_known() == old(self).last_known(),
            final(self).stable() == old(self).stable(),
            final(self).owned() == old(self).owned(),
            final(self).debug() == old(self).debug(),
            final(self).election_view() == old(self).election_view(),
            final(self).actions_view() == old(self).actions_view(),
            final(self).errors_view() == old(self).errors_view(),
            final(self).parents() == old(self).parents(),
    {
        match run {
            RoleRun::WriteFailed => false,
            RoleRun::Ran(RenderOutcome::Succeeded) => {
                self.reset_role_failure(role_name);
                true
            },
            RoleRun::Ran(_) => {
                self.mark_role_failure(role_name);
                true
            },
        }
    }

    /// Forgets that a role failed to render.
    pub fn reset_role_failure(&mut self, role_name: &str)
        ensures
            final(self).known_peers() == old(self).known_peers(),
            final(self).failed_roles_view() == old(self).failed_roles_view().remove(role_name@),
            final(self).last_known() == old(self).last_known(),
            final(self).stable() == old(self).stable(),
            final(self).owned() == old(self).owned(),
            final(self).debug() == old(self).debug(),
            final(self).election_view() == old(self).election_view(),
            final(self).actions_view() == old(self).actions_view(),
            final(self).errors_view() == old(self).errors_view(),
            final(self).parents() == old(self).parents(),
    {
        self.failed_roles.remove(role_name);
    }
}

/// The schedule a leader makes of its scheduler's output at `now_ms`: the
/// data, the SHA-1 of its JSON text, and this node as the origin.
pub open spec fn made_schedule(data: JsonView, now_ms: u64, origin: Seq<u8>) -> ScheduleView {
    ScheduleView { timestamp: now_ms, hash: sha1_hex(encode_utf8(json_text(data))), data, origin }
}

impl<D> SharedState<D> {
    /// What a leader does with one run of its scheduler. On success the
    /// `scheduler` error is cleared and the schedule made of the output (see
    /// `made_schedule`) is published with the debugging output while the
    /// cookie's epoch is still led, and handed back then. On failure the
    /// error text is recorded under `scheduler`, the debugging output is
    /// kept, and nothing is published.
    pub fn scheduler_outcome(
        &mut self,
        cookie: LeaderCookie,
        result: Result<Json, String>,
        now_ms: u64,
        origin: &Id,
        debug: D,
    ) -> (r: Option<Schedule>)
        ensures
            final(self).known_peers() == old(self).known_peers(),
            final(self).election_view() == old(self).election_view(),
            final(self).actions_view() == old(self).actions_view(),
            final(self).failed_roles_view() == old(self).failed_roles_view(),
            final(self).parents() == old(self).parents(),
            match result {
                Ok(j) => {
                    &&& final(self).errors_view() == old(self).errors_view().remove("scheduler"@)
                    &&& old(self).election_view().accepts_leader_spec(cookie.epoch_view()) ==> {
                        &&& r matches Some(s) && s@ == made_schedule(json_view(j), now_ms, origin@)
                        &&& final(self).last_known() == Some(made_schedule(json_view(j), now_ms, origin@))
                        &&& final(self).owned() == Some(made_schedule(json_view(j), now_ms, origin@))
                        &&& final(self).stable() == Some(made_schedule(json_view(j), now_ms, origin@))
                        &&& final(self).debug() == Some(debug)
                    }
                    &&& !old(self).election_view().accepts_leader_spec(cookie.epoch_view()) ==> {
                        &&& r is None
                        &&& final(self).last_known() == old(self).last_known()
                        &&& final(self).owned() == old(self).owned()
                        &&& final(self).stable() == old(self).stable()
                        &&& final(self).debug() == old(self).debug()
                    }
                },
                Err(e) => {
                    &&& r is None
                    &&& final(self).errors_view() == old(self).errors_view().insert("scheduler"@, e)
                    &&& final(self).debug() == Some(debug)
                    &&& final(self).last_known() == old(self).last_known()
                    &&& final(self).owned() == old(self).owned()
                    &&& final(self).stable() == old(self).stable()
                },
            },
    {
        match result {
            Ok(data) => {
                self.clear_error("scheduler");
                let text = json_text_of(&data);
                let schedule = Schedule { timestamp: now_ms, hash: hash(text.as_str()), data, origin: origin.duplicate() };
                self.set_schedule_by_leader(cookie, schedule, debug)
            },
            Err(e) => {
                self.set_error("scheduler", e);
                self.set_schedule_debug_info(debug);
                None
            },
        }
    }
}

/// Law: followers accept what a leader publishes. The hash of a schedule
/// made of the scheduler's output is the SHA-1 of its data's JSON text,
/// which is the check a schedule read from JSON must pass.
pub proof fn made_schedule_passes_hash_check(data: JsonView, now_ms: u64, origin: Seq<u8>)
    ensures
        made_schedule(data, now_ms, origin).hash == sha1_hex(encode_utf8(json_text(made_schedule(data, now_ms, origin).data))),
{
}

/// A leader cookie outlives no change of epoch: once an election state
/// with another epoch is published, the cookie neither refreshes nor lets a
/// schedule computed with it be published.
pub proof fn cookie_expires_with_epoch(current: ElectionState, published: ElectionState, cookie_epoch: Epoch)
    requires
        cookie_epoch == current.epoch,
        published.epoch != current.epoch,
    ensures
        current.merged_spec(published).epoch != cookie_epoch,
        !current.merged_spec(published).accepts_leader_spec(cookie_epoch),
{
}

/// After an election state that says this node does not lead, no schedule
/// of its own is published, whatever cookie it was computed with.
pub proof fn no_publishing_without_leadership(current: ElectionState, published: ElectionState, cookie_epoch: Epoch)
    requires
        !published.is_leader,
    ensures
        !current.merged_spec(published).accepts_leader_spec(cookie_epoch),
{
}

/// Once known, a moment at which the cluster was stable stays known through
/// every published election state.
pub proof fn stable_moment_is_kept(current: ElectionState, published: ElectionState)
    requires
        current.last_stable_timestamp is Some,
    ensures
        current.merged_spec(published).last_stable_timestamp is Some,
{
}

/// A leader never takes a schedule as a follower: while the published
/// state says this node leads, `set_schedule_by_follower` keeps the stable
/// schedule whatever its origin.
pub proof fn leader_ignores_follower_schedules(e: ElectionState, origin: Seq<u8>)
    requires
        e.is_leader,
    ensures
        !e.accepts_follower_spec(origin),
{
}

} // verus!
