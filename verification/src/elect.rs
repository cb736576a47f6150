//! Leader election: the messages nodes exchange and the published state of
//! the election.

use vstd::prelude::*;

use std::time::SystemTime;

use crate::id::Id;
use crate::schedule::Schedule;

verus! {

/// Number of an election round.
pub type Epoch = u64;

/// Identifies a schedule a node holds: when and by whom it was made, and
/// its hash.
pub struct ScheduleStamp {
    /// Milliseconds since the Unix epoch.
    pub timestamp: u64,
    pub hash: String,
    pub origin: Id,
}

impl ScheduleStamp {
    /// The stamp of a schedule: its time, hash and origin.
    pub fn from(schedule: &Schedule) -> (r: ScheduleStamp)
        ensures
            r.timestamp == schedule.timestamp,
            r.hash@ == schedule.hash@,
            r.origin@ == schedule.origin@,
    {
        ScheduleStamp {
            timestamp: schedule.timestamp,
            hash: schedule.hash.clone(),
            origin: schedule.origin.duplicate(),
        }
    }
}

/// Election message carried by a packet.
pub enum Message {
    /// From the leader to followers: the leadership still holds.
    Ping,
    /// From a follower to the leader: it is confirmed as leader.
    Pong,
    /// A vote for some node.
    Vote(Id),
}

/// A decoded election packet.
pub struct Capsule {
    pub source: Id,
    pub epoch: Epoch,
    pub message: Message,
    pub schedule: Option<ScheduleStamp>,
    pub errors: Option<usize>,
}

/// Election packet as sent over the wire.
pub enum Packet {
    Ping { id: Id, epoch: Epoch, schedule: Option<ScheduleStamp> },
    Pong { id: Id, epoch: Epoch, schedule: Option<ScheduleStamp>, errors: usize },
    Vote { id: Id, epoch: Epoch, target: Id, schedule: Option<ScheduleStamp> },
}

impl Capsule {
    /// The capsule a packet decodes to: the sender becomes the source, only
    /// a pong reports an error count, a vote carries its target.
    pub fn from_packet(pkt: Packet) -> (c: Capsule)
        ensures
            match pkt {
                Packet::Ping { id, epoch, schedule } => c == Capsule {
                    source: id,
                    epoch,
                    message: Message::Ping,
                    schedule,
                    errors: None,
                },
                Packet::Pong { id, epoch, schedule, errors } => c == Capsule {
                    source: id,
                    epoch,
                    message: Message::Pong,
                    schedule,
                    errors: Some(errors),
                },
                Packet::Vote { id, epoch, target, schedule } => c == Capsule {
                    source: id,
                    epoch,
                    message: Message::Vote(target),
                    schedule,
                    errors: None,
                },
            },
    {
        match pkt {
            Packet::Ping { id, epoch, schedule } => {
                Capsule { source: id, epoch, message: Message::Ping, schedule, errors: None }
            },
            Packet::Pong { id, epoch, schedule, errors } => {
                Capsule { source: id, epoch, message: Message::Pong, schedule, errors: Some(errors) }
            },
            Packet::Vote { id, epoch, target, schedule } => {
                Capsule { source: id, epoch, message: Message::Vote(target), schedule, errors: None }
            },
        }
    }
}

/// The state of the election as published to the API.
pub struct ElectionState {
    /// This node is the leader.
    pub is_leader: bool,
    /// There is a leader in the visible cluster.
    pub is_stable: bool,
    /// The leader, when there is one and it is another node.
    pub leader: Option<Id>,
    /// The node voted for while there is no leader.
    pub promoting: Option<Id>,
    /// Votes this node got while it is electing.
    pub num_votes_for_me: Option<usize>,
    pub epoch: Epoch,
    /// Current timeout of the election machine.
    pub deadline: SystemTime,
    /// Last moment the cluster was known to be stable.
    pub last_stable_timestamp: Option<SystemTime>,
}

impl ElectionState {
    pub open spec fn blank_spec(deadline: SystemTime) -> ElectionState {
        ElectionState {
            is_leader: false,
            is_stable: false,
            leader: None,
            promoting: None,
            num_votes_for_me: None,
            epoch: 0,
            deadline,
            last_stable_timestamp: None,
        }
    }

    /// `new` with the last stable moment of `self` where `new` has none.
    pub open spec fn merged_spec(self, new: ElectionState) -> ElectionState {
        ElectionState {
            last_stable_timestamp: match new.last_stable_timestamp {
                Some(t) => Some(t),
                None => self.last_stable_timestamp,
            },
            ..new
        }
    }

    /// This node follows the node with this id.
    pub open spec fn accepts_follower_spec(self, origin: Seq<u8>) -> bool {
        !self.is_leader && match self.leader {
            Some(l) => l@ == origin,
            None => false,
        }
    }

    /// This node leads in this epoch.
    pub open spec fn accepts_leader_spec(self, epoch: Epoch) -> bool {
        self.is_leader && self.epoch == epoch
    }

    /// The state before the election machine has run: no leader, epoch
    /// zero, with the deadline given.
    pub fn blank(deadline: SystemTime) -> (r: ElectionState)
        ensures
            !r.is_leader,
            !r.is_stable,
            r.leader is None,
            r.promoting is None,
            r.num_votes_for_me is None,
            r.epoch == 0,
            r.deadline == deadline,
            r.last_stable_timestamp is None,
            r == Self::blank_spec(deadline),
    {
        ElectionState {
            is_leader: false,
            is_stable: false,
            leader: None,
            promoting: None,
            num_votes_for_me: None,
            epoch: 0,
            deadline,
            last_stable_timestamp: None,
        }
    }

    /// The state that replaces `self` when the machine publishes `new`: the
    /// new state, except that the last stable moment is kept when the new
    /// state does not know one.
    pub fn merged(&self, new: ElectionState) -> (r: ElectionState)
        ensures
            r.is_leader == new.is_leader,
            r.is_stable == new.is_stable,
            r.leader == new.leader,
            r.promoting == new.promoting,
            r.num_votes_for_me == new.num_votes_for_me,
            r.epoch == new.epoch,
            r.deadline == new.deadline,
            r.last_stable_timestamp == match new.last_stable_timestamp {
                Some(t) => Some(t),
                None => self.last_stable_timestamp,
            },
            r == self.merged_spec(new),
    {
        let tstamp = match new.last_stable_timestamp {
            Some(t) => Some(t),
            None => match &self.last_stable_timestamp {
                Some(t) => Some(*t),
                None => None,
            },
        };
        ElectionState { last_stable_timestamp: tstamp, ..new }
    }

    /// A schedule made by `origin` is taken as the stable one only while
    /// this node follows `origin`.
    pub fn accepts_follower_schedule(&self, origin: &Id) -> (r: bool)
        ensures
            r == self.accepts_follower_spec(origin@),
    {
        if self.is_leader {
            return false;
        }
        match &self.leader {
            Some(l) => l.same_as(origin),
            None => false,
        }
    }

    /// A schedule computed by this node is published only while it is still
    /// the leader of the epoch it computed it in.
    pub fn accepts_leader_schedule(&self, cookie_epoch: Epoch) -> (r: bool)
        ensures
            r == self.accepts_leader_spec(cookie_epoch),
    {
        self.is_leader && self.epoch == cookie_epoch
    }

    /// Losing leadership drops what only a leader keeps: pending actions,
    /// the owned schedule, scheduler debug output and scheduler errors.
    pub fn drops_leader_data(&self) -> (r: bool)
        ensures
            r == !self.is_leader,
    {
        !self.is_leader
    }
}

} // verus!
