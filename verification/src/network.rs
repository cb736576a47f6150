//! What the election machine's actions send, and to whom.

use vstd::prelude::*;

use crate::elect::{Epoch, Packet, ScheduleStamp};
use crate::id::Id;
use crate::id_collections::IdMap;
use crate::peers::{broadcast_targets, broadcast_upto, opt_addr_view, opt_stamp_view, peer_address, AddrView, Peer, PeerAddr, StampView};
use crate::schedule::{Schedule, ScheduleView};

verus! {

/// An action of the election machine.
pub enum Action {
    /// Confirm leadership to every other node.
    PingAll,
    /// Vote for a node, telling every other node.
    Vote(Id),
    /// Confirm a vote to the node voted for.
    ConfirmVote(Id),
    /// Answer the leader's ping.
    Pong(Id),
}

/// An election packet with ids and stamps taken as values.
pub enum PacketView {
    Ping { id: Seq<u8>, epoch: Epoch, schedule: Option<StampView> },
    Pong { id: Seq<u8>, epoch: Epoch, schedule: Option<StampView>, errors: usize },
    Vote { id: Seq<u8>, epoch: Epoch, target: Seq<u8>, schedule: Option<StampView> },
}

impl View for Packet {
    type V = PacketView;

    open spec fn view(&self) -> PacketView {
        match self {
            Packet::Ping { id, epoch, schedule } => PacketView::Ping {
                id: id@,
                epoch: *epoch,
                schedule: opt_stamp_view(*schedule),
            },
            Packet::Pong { id, epoch, schedule, errors } => PacketView::Pong {
                id: id@,
                epoch: *epoch,
                schedule: opt_stamp_view(*schedule),
                errors: *errors,
            },
            Packet::Vote { id, epoch, target, schedule } => PacketView::Vote {
                id: id@,
                epoch: *epoch,
                target: target@,
                schedule: opt_stamp_view(*schedule),
            },
        }
    }
}

/// The stamp of a schedule.
pub open spec fn stamp_of(s: Option<ScheduleView>) -> Option<StampView> {
    match s {
        Some(v) => Some(StampView { timestamp: v.timestamp, hash: v.hash, origin: v.origin }),
        None => None,
    }
}

pub open spec fn opt_schedule_view(s: Option<&Schedule>) -> Option<ScheduleView> {
    match s {
        Some(x) => Some(x@),
        None => None,
    }
}

/// The packet an action sends: a ping carries the schedule this node
/// computed as leader, votes and pongs the last schedule it knows; a pong
/// also reports the node's error count.
pub open spec fn action_packet(
    action: Action,
    me: Seq<u8>,
    epoch: Epoch,
    owned: Option<ScheduleView>,
    known: Option<ScheduleView>,
    errors: usize,
) -> PacketView {
    match action {
        Action::PingAll => PacketView::Ping { id: me, epoch, schedule: stamp_of(owned) },
        Action::Vote(t) => PacketView::Vote { id: me, epoch, target: t@, schedule: stamp_of(known) },
        Action::ConfirmVote(t) => PacketView::Vote { id: me, epoch, target: t@, schedule: stamp_of(known) },
        Action::Pong(_) => PacketView::Pong { id: me, epoch, schedule: stamp_of(known), errors },
    }
}

/// Where an action's packet goes: pings and votes to every other host with
/// an address, a confirmed vote and a pong only to the node they are for,
/// when its address is known.
pub open spec fn action_targets(action: Action, me: Seq<u8>, hosts: IdMap<Peer>) -> Seq<AddrView> {
    match action {
        Action::PingAll => broadcast_upto(hosts, me, hosts@.dom().len()),
        Action::Vote(_) => broadcast_upto(hosts, me, hosts@.dom().len()),
        Action::ConfirmVote(t) => direct_target(hosts, t@),
        Action::Pong(t) => direct_target(hosts, t@),
    }
}

/// The address of one host, as a list of at most one address.
pub open spec fn direct_target(hosts: IdMap<Peer>, id: Seq<u8>) -> Seq<AddrView> {
    if hosts@.contains_key(id) {
        match opt_addr_view(hosts@[id].addr) {
            Some(a) => seq![a],
            None => Seq::empty(),
        }
    } else {
        Seq::empty()
    }
}

/// What an action sends and to which addresses.
pub struct ActionPlan {
    pub packet: Packet,
    pub targets: Vec<PeerAddr>,
}

fn stamp_from(s: Option<&Schedule>) -> (r: Option<ScheduleStamp>)
    ensures
        opt_stamp_view(r) == stamp_of(opt_schedule_view(s)),
{
    match s {
        Some(x) => Some(ScheduleStamp::from(x)),
        None => None,
    }
}

/// Plans an action of the election machine in `epoch`: the packet (see
/// `action_packet`) and its destinations (see `action_targets`). After
/// confirming leadership, the hash of the schedule sent (empty when none)
/// is recorded as the last one sent; the other actions leave it.
pub fn plan_action(
    action: &Action,
    me: &Id,
    epoch: Epoch,
    owned: Option<&Schedule>,
    known: Option<&Schedule>,
    errors: usize,
    hosts: &IdMap<Peer>,
    last_sent_hash: &mut String,
) -> (r: ActionPlan)
    requires
        hosts.well_formed(),
    ensures
        r.packet@ == action_packet(*action, me@, epoch, opt_schedule_view(owned), opt_schedule_view(known), errors),
        r.targets@.map_values(|a: PeerAddr| a@) == action_targets(*action, me@, *hosts),
        final(last_sent_hash)@ == match action {
            Action::PingAll => match owned {
                Some(s) => s.hash@,
                None => Seq::<char>::empty(),
            },
            _ => old(last_sent_hash)@,
        },
{
    match action {
        Action::PingAll => {
            *last_sent_hash = match owned {
                Some(s) => s.hash.clone(),
                None => String::new(),
            };
            ActionPlan {
                packet: Packet::Ping { id: me.duplicate(), epoch, schedule: stamp_from(owned) },
                targets: broadcast_targets(hosts, me),
            }
        },
        Action::Vote(t) => ActionPlan {
            packet: Packet::Vote { id: me.duplicate(), epoch, target: t.duplicate(), schedule: stamp_from(known) },
            targets: broadcast_targets(hosts, me),
        },
        Action::ConfirmVote(t) => ActionPlan {
            packet: Packet::Vote { id: me.duplicate(), epoch, target: t.duplicate(), schedule: stamp_from(known) },
            targets: direct_vec(hosts, t),
        },
        Action::Pong(t) => ActionPlan {
            packet: Packet::Pong { id: me.duplicate(), epoch, schedule: stamp_from(known), errors },
            targets: direct_vec(hosts, t),
        },
    }
}

fn direct_vec(hosts: &IdMap<Peer>, id: &Id) -> (r: Vec<PeerAddr>)
    requires
        hosts.well_formed(),
    ensures
        r@.map_values(|a: PeerAddr| a@) == direct_target(*hosts, id@),
{
    let mut v: Vec<PeerAddr> = Vec::new();
    match peer_address(hosts, id) {
        Some(a) => {
            v.push(a);
        },
        None => {},
    }
    assert(v@.map_values(|a: PeerAddr| a@) =~= direct_target(*hosts, id@));
    v
}

/// Law: what an election packet reports of schedules. Votes, confirmed
/// votes and pongs carry the stamp of the last schedule the node knows, the
/// same whatever schedule it owns as leader; a ping carries the stamp of the
/// owned schedule, the same whatever it last knew. Every packet names the
/// sender and the epoch.
pub proof fn packets_report_the_right_schedule(
    me: Seq<u8>,
    epoch: Epoch,
    owned: Option<ScheduleView>,
    other_owned: Option<ScheduleView>,
    known: Option<ScheduleView>,
    other_known: Option<ScheduleView>,
    errors: usize,
    target: Id,
)
    ensures
        action_packet(Action::Pong(target), me, epoch, owned, known, errors)
            == action_packet(Action::Pong(target), me, epoch, other_owned, known, errors),
        action_packet(Action::Vote(target), me, epoch, owned, known, errors)
            == action_packet(Action::Vote(target), me, epoch, other_owned, known, errors),
        action_packet(Action::ConfirmVote(target), me, epoch, owned, known, errors)
            == action_packet(Action::ConfirmVote(target), me, epoch, other_owned, known, errors),
        action_packet(Action::PingAll, me, epoch, owned, known, errors)
            == action_packet(Action::PingAll, me, epoch, owned, other_known, errors),
        match (action_packet(Action::Pong(target), me, epoch, owned, known, errors),
               action_packet(Action::Vote(target), me, epoch, owned, known, errors)) {
            (PacketView::Pong { schedule: a, .. }, PacketView::Vote { schedule: b, .. }) => a == b,
            _ => false,
        },
        match action_packet(Action::Pong(target), me, epoch, owned, known, errors) {
            PacketView::Pong { id, epoch: e, schedule, errors: n } => {
                &&& id == me && e == epoch && n == errors
                &&& (known matches Some(s) ==> schedule matches Some(st) && st.hash == s.hash
                        && st.timestamp == s.timestamp && st.origin == s.origin)
                &&& (known is None ==> schedule is None)
            },
            _ => false,
        },
        match action_packet(Action::PingAll, me, epoch, owned, known, errors) {
            PacketView::Ping { id, epoch: e, schedule } => {
                &&& id == me && e == epoch
                &&& (owned matches Some(s) ==> schedule matches Some(st) && st.hash == s.hash)
                &&& (owned is None ==> schedule is None)
            },
            _ => false,
        },
{
}

/// Law: where election packets go and what votes say. Pings and votes go to
/// the same hosts (every other host with an address); a confirmed vote and
/// a pong go only to the node they are for, when its address is known. A
/// confirmed vote is the same packet as the vote, naming its target.
pub proof fn packets_go_to_the_right_nodes(
    me: Seq<u8>,
    epoch: Epoch,
    owned: Option<ScheduleView>,
    known: Option<ScheduleView>,
    errors: usize,
    target: Id,
    hosts: IdMap<Peer>,
)
    ensures
        action_targets(Action::PingAll, me, hosts) == action_targets(Action::Vote(target), me, hosts),
        action_targets(Action::Pong(target), me, hosts) == action_targets(Action::ConfirmVote(target), me, hosts),
        action_targets(Action::Pong(target), me, hosts).len() <= 1,
        (hosts@.contains_key(target@) && hosts@[target@].addr is Some)
            ==> action_targets(Action::Pong(target), me, hosts) == seq![hosts@[target@].addr->0@],
        !(hosts@.contains_key(target@) && hosts@[target@].addr is Some)
            ==> action_targets(Action::Pong(target), me, hosts).len() == 0,
        action_packet(Action::ConfirmVote(target), me, epoch, owned, known, errors)
            == action_packet(Action::Vote(target), me, epoch, owned, known, errors),
        match action_packet(Action::Vote(target), me, epoch, owned, known, errors) {
            PacketView::Vote { id, epoch: e, target: t, .. } => id == me && e == epoch && t == target@,
            _ => false,
        },
{
}

} // verus!
