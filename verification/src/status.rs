//! What the status page says of the cluster's leader.

use vstd::prelude::*;

use std::time::SystemTime;

use crate::elect::{ElectionState, Epoch};
use crate::routing::ApiRoute;
use crate::shared::SharedState;
use crate::id::Id;
use crate::id_collections::IdMap;
use crate::peers::{opt_addr_view, AddrView, Peer};

verus! {

/// The leader as the status page shows it.
pub struct LeaderInfo {
    pub id: Id,
    pub name: String,
    pub hostname: String,
    /// Where it listens; not known for this node itself.
    pub addr: Option<crate::peers::PeerAddr>,
}

/// The leader's id, names and address, with strings taken as values.
pub struct LeaderInfoView {
    pub id: Seq<u8>,
    pub name: Seq<char>,
    pub hostname: Seq<char>,
    pub addr: Option<AddrView>,
}

impl View for LeaderInfo {
    type V = LeaderInfoView;

    open spec fn view(&self) -> LeaderInfoView {
        LeaderInfoView { id: self.id@, name: self.name@, hostname: self.hostname@, addr: opt_addr_view(self.addr) }
    }
}

/// The leader shown: this node when it leads (its address unknown), else
/// the leader it follows as the peer list knows it; none when there is no
/// leader or the peer list does not know it.
pub open spec fn leader_info_spec(
    election: ElectionState,
    my_id: Seq<u8>,
    my_name: Seq<char>,
    my_hostname: Seq<char>,
    peers: Map<Seq<u8>, Peer>,
) -> Option<LeaderInfoView> {
    if election.is_leader {
        Some(LeaderInfoView { id: my_id, name: my_name, hostname: my_hostname, addr: None })
    } else {
        match election.leader {
            Some(l) => if peers.contains_key(l@) {
                let p = peers[l@];
                Some(LeaderInfoView { id: l@, name: p.name@, hostname: p.hostname@, addr: opt_addr_view(p.addr) })
            } else {
                None
            },
            None => None,
        }
    }
}

/// The leader the status page shows (see `leader_info_spec`).
pub fn leader_info(
    election: &ElectionState,
    my_id: &Id,
    my_name: &str,
    my_hostname: &str,
    peers: &IdMap<Peer>,
) -> (r: Option<LeaderInfo>)
    requires
        peers.well_formed(),
    ensures
        match r {
            Some(info) => leader_info_spec(*election, my_id@, my_name@, my_hostname@, peers@) == Some(info@),
            None => leader_info_spec(*election, my_id@, my_name@, my_hostname@, peers@) is None,
        },
{
    if election.is_leader {
        return Some(LeaderInfo {
            id: my_id.duplicate(),
            name: my_name.to_owned(),
            hostname: my_hostname.to_owned(),
            addr: None,
        });
    }
    match &election.leader {
        Some(l) => match peers.get(l) {
            Some(p) => {
                let addr = match &p.addr {
                    Some(a) => Some(a.duplicate()),
                    None => None,
                };
                Some(LeaderInfo { id: l.duplicate(), name: p.name.clone(), hostname: p.hostname.clone(), addr })
            },
            None => None,
        },
        None => None,
    }
}

/// What the status page reports of the node's shared state.
pub struct StatusSummary {
    /// Number of known peers.
    pub peers: usize,
    /// When the peer list was reported.
    pub peers_timestamp: SystemTime,
    pub leader: Option<LeaderInfo>,
    pub election_epoch: Epoch,
    pub last_stable_timestamp: Option<SystemTime>,
    /// Errors by domain and failed roles, together.
    pub num_errors: usize,
}

/// The status page's summary of the shared state: the number of peers and
/// when they were reported, the leader shown (see `leader_info_spec`), the
/// election's epoch and last stable moment, and the number of errors plus
/// the number of failed roles.
pub fn status_summary<D>(state: &SharedState<D>, my_id: &Id, my_name: &str, my_hostname: &str) -> (r: StatusSummary)
    requires
        state.well_formed(),
        state.errors_view().len() + state.failed_roles_view().len() <= usize::MAX,
    ensures
        r.peers == state.known_peers().peers@.dom().len(),
        r.peers_timestamp == state.known_peers().timestamp,
        match r.leader {
            Some(info) => leader_info_spec(state.election_view(), my_id@, my_name@, my_hostname@, state.known_peers().peers@)
                == Some(info@),
            None => leader_info_spec(state.election_view(), my_id@, my_name@, my_hostname@, state.known_peers().peers@) is None,
        },
        r.election_epoch == state.election_view().epoch,
        r.last_stable_timestamp == state.election_view().last_stable_timestamp,
        r.num_errors == state.errors_view().len() + state.failed_roles_view().len(),
{
    broadcast use vstd::hash_map::group_hash_map_axioms, vstd::hash_set::group_hash_set_axioms;
    let peers = state.peers();
    let election = state.election();
    let leader = leader_info(election, my_id, my_name, my_hostname, &peers.peers);
    let num_errors = state.errors().len() + state.failed_roles().len();
    StatusSummary {
        peers: peers.peers.len(),
        peers_timestamp: peers.timestamp,
        leader,
        election_epoch: election.epoch,
        last_stable_timestamp: election.last_stable_timestamp,
        num_errors,
    }
}

/// How the API answers a route it serves itself.
#[derive(Clone, Copy, Debug, PartialEq, Eq, Structural)]
pub enum ApiReply {
    /// The status summary.
    StatusPage,
    /// The list of peers.
    PeerList,
    /// The published election state.
    Election,
    /// `501 Not Implemented`.
    NotImplemented,
    /// The route is answered elsewhere (backups, GraphQL, roles data,
    /// queries and redirects).
    Elsewhere,
}

/// How the API answers a route: the status page, the peer list and the
/// election state are served; the schedule, the scheduler's input and debug
/// output, pending actions, forced rendering and actions are not
/// implemented.
pub fn api_reply(route: &ApiRoute) -> (r: ApiReply)
    ensures
        r == match route {
            ApiRoute::Status => ApiReply::StatusPage,
            ApiRoute::Peers => ApiReply::PeerList,
            ApiRoute::Election => ApiReply::Election,
            ApiRoute::Schedule | ApiRoute::SchedulerInput | ApiRoute::SchedulerDebugInfo
                | ApiRoute::PendingActions | ApiRoute::ForceRenderAll | ApiRoute::PushAction
                | ApiRoute::ActionIsPending(_) => ApiReply::NotImplemented,
            _ => ApiReply::Elsewhere,
        },
{
    match route {
        ApiRoute::Status => ApiReply::StatusPage,
        ApiRoute::Peers => ApiReply::PeerList,
        ApiRoute::Election => ApiReply::Election,
        ApiRoute::Schedule | ApiRoute::SchedulerInput | ApiRoute::SchedulerDebugInfo
            | ApiRoute::PendingActions | ApiRoute::ForceRenderAll | ApiRoute::PushAction
            | ApiRoute::ActionIsPending(_) => ApiReply::NotImplemented,
        _ => ApiReply::Elsewhere,
    }
}

/// Law: the leader the status page shows. A node that leads shows itself,
/// with no address; a follower shows the peer entry of its leader: that
/// peer's id, its own name, its hostname and its address. Whatever a
/// follower shows is some peer's entry, under that peer's own name.
pub proof fn leader_shown_is_the_leader_peer(
    election: ElectionState,
    my_id: Seq<u8>,
    my_name: Seq<char>,
    my_hostname: Seq<char>,
    peers: Map<Seq<u8>, Peer>,
    leader: Id,
)
    ensures
        election.is_leader ==> ({
            let shown = leader_info_spec(election, my_id, my_name, my_hostname, peers);
            &&& shown is Some
            &&& shown->0.id == my_id && shown->0.name == my_name && shown->0.hostname == my_hostname
            &&& shown->0.addr is None
        }),
        (!election.is_leader && election.leader == Some(leader) && peers.contains_key(leader@)) ==> ({
            let shown = leader_info_spec(election, my_id, my_name, my_hostname, peers);
            &&& shown is Some
            &&& shown->0.id == leader@
            &&& shown->0.name == peers[leader@].name@
            &&& shown->0.hostname == peers[leader@].hostname@
            &&& shown->0.addr == opt_addr_view(peers[leader@].addr)
        }),
        (!election.is_leader && leader_info_spec(election, my_id, my_name, my_hostname, peers) is Some) ==> ({
            let shown = leader_info_spec(election, my_id, my_name, my_hostname, peers)->0;
            &&& peers.contains_key(shown.id)
            &&& shown.name == peers[shown.id].name@
            &&& shown.hostname == peers[shown.id].hostname@
        }),
{
}

} // verus!
