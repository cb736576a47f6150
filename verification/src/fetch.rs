//! The schedule fetcher: which schedule a node should be fetching, and the
//! connection machines that fetch it.
//!
//! The decisions are functions from a state and an event to the next state
//! and an action; the caller owns the timers and sockets, performs the
//! action and reports what happened.

use vstd::prelude::*;

use crate::elect::ScheduleStamp;
use crate::id::Id;
use crate::text::str_eq;

verus! {

/// What the fetcher is told by the election.
pub enum Message {
    /// This node became (or still is) the leader.
    Leader,
    /// This node follows the given leader.
    Follower(Id),
    /// An election is in progress.
    Election,
    /// A peer reported the schedule it holds.
    PeerSchedule(Id, ScheduleStamp),
}

/// Progress of prefetching the peers' schedules before the first schedule
/// is computed by a new leader.
#[derive(Clone, Copy, Debug, PartialEq, Eq, Structural)]
pub enum PrefetchState {
    /// Waiting a minimum time for peers to report.
    Graceful,
    /// Fetching what peers reported, until done or a deadline.
    Fetching,
}

/// State of the fetcher as published to the API.
pub enum PublicState {
    Unstable,
    StableLeader,
    Prefetching(PrefetchState),
    Replicating { leader: Id, schedule: Option<String> },
}

/// What the fetcher is doing, without the connections it holds.
pub enum FetchPhase {
    Unstable,
    StableLeader,
    Prefetching(PrefetchState),
    Replicating { leader: Id, target: Option<String> },
}

/// How the fetcher reacts to a message.
pub enum FetchStep {
    /// Nothing changes.
    Keep,
    /// Drop the stable schedule and wait for the election.
    Unstable,
    /// Drop the stable schedule and start prefetching the peers' schedules
    /// (seeded with the last known schedule: see `refetch::Prefetch::start`).
    StartPrefetch,
    /// Tell the prefetcher that a peer holds the schedule with this hash.
    Report(Id, String),
    /// Drop the stable schedule and replicate from this leader, with no
    /// target yet and a fresh connection.
    StartReplica(Id),
    /// Drop the stable schedule and fetch the schedule with this hash from
    /// the current leader.
    Retarget(String),
}

pub enum MessageView {
    Leader,
    Follower(Seq<u8>),
    Election,
    PeerSchedule(Seq<u8>, Seq<char>),
}

pub enum FetchPhaseView {
    Unstable,
    StableLeader,
    Prefetching(PrefetchState),
    Replicating { leader: Seq<u8>, target: Option<Seq<char>> },
}

pub enum FetchStepView {
    Keep,
    Unstable,
    StartPrefetch,
    Report(Seq<u8>, Seq<char>),
    StartReplica(Seq<u8>),
    Retarget(Seq<char>),
}

pub open spec fn opt_string_view(s: Option<String>) -> Option<Seq<char>> {
    match s {
        Some(x) => Some(x@),
        None => None,
    }
}

impl View for Message {
    type V = MessageView;

    open spec fn view(&self) -> MessageView {
        match self {
            Message::Leader => MessageView::Leader,
            Message::Follower(l) => MessageView::Follower(l@),
            Message::Election => MessageView::Election,
            Message::PeerSchedule(p, s) => MessageView::PeerSchedule(p@, s.hash@),
        }
    }
}

impl View for FetchPhase {
    type V = FetchPhaseView;

    open spec fn view(&self) -> FetchPhaseView {
        match self {
            FetchPhase::Unstable => FetchPhaseView::Unstable,
            FetchPhase::StableLeader => FetchPhaseView::StableLeader,
            FetchPhase::Prefetching(s) => FetchPhaseView::Prefetching(*s),
            FetchPhase::Replicating { leader, target } => FetchPhaseView::Replicating {
                leader: leader@,
                target: opt_string_view(*target),
            },
        }
    }
}

impl View for FetchStep {
    type V = FetchStepView;

    open spec fn view(&self) -> FetchStepView {
        match self {
            FetchStep::Keep => FetchStepView::Keep,
            FetchStep::Unstable => FetchStepView::Unstable,
            FetchStep::StartPrefetch => FetchStepView::StartPrefetch,
            FetchStep::Report(p, h) => FetchStepView::Report(p@, h@),
            FetchStep::StartReplica(l) => FetchStepView::StartReplica(l@),
            FetchStep::Retarget(h) => FetchStepView::Retarget(h@),
        }
    }
}

/// How the fetcher reacts to a message; `schedule_is_current` tells
/// whether a reported schedule is already the stable one.
pub open spec fn fetch_step_spec(
    phase: FetchPhaseView,
    msg: MessageView,
    schedule_is_current: bool,
) -> FetchStepView {
    match msg {
        MessageView::Leader => match phase {
            FetchPhaseView::StableLeader => FetchStepView::Keep,
            FetchPhaseView::Prefetching(_) => FetchStepView::Keep,
            _ => FetchStepView::StartPrefetch,
        },
        MessageView::Follower(l) => match phase {
            FetchPhaseView::Replicating { leader, .. } => if leader == l {
                FetchStepView::Keep
            } else {
                FetchStepView::StartReplica(l)
            },
            _ => FetchStepView::StartReplica(l),
        },
        MessageView::Election => match phase {
            FetchPhaseView::Unstable => FetchStepView::Keep,
            _ => FetchStepView::Unstable,
        },
        MessageView::PeerSchedule(peer, hash) => match phase {
            FetchPhaseView::Prefetching(_) => FetchStepView::Report(peer, hash),
            FetchPhaseView::Replicating { leader, target } => if leader == peer {
                if target is None && schedule_is_current {
                    FetchStepView::Keep
                } else {
                    FetchStepView::Retarget(hash)
                }
            } else {
                FetchStepView::Keep
            },
            _ => FetchStepView::Keep,
        },
    }
}

/// The phase after a step is taken.
pub open spec fn apply_step_spec(phase: FetchPhaseView, step: FetchStepView) -> FetchPhaseView {
    match step {
        FetchStepView::Keep => phase,
        FetchStepView::Unstable => FetchPhaseView::Unstable,
        FetchStepView::StartPrefetch => FetchPhaseView::Prefetching(PrefetchState::Graceful),
        FetchStepView::Report(_, _) => phase,
        FetchStepView::StartReplica(l) => FetchPhaseView::Replicating { leader: l, target: None },
        FetchStepView::Retarget(h) => match phase {
            FetchPhaseView::Replicating { leader, .. } => FetchPhaseView::Replicating {
                leader,
                target: Some(h),
            },
            _ => phase,
        },
    }
}

/// Law: the election decides what the fetcher does. After `Leader` this
/// node prefetches or already is a stable leader, after `Follower(l)` it
/// replicates from `l`, after `Election` it is unstable, and a peer's
/// report never changes the kind of phase nor the leader followed.
pub proof fn fetch_follows_election(phase: FetchPhaseView, msg: MessageView, current: bool)
    ensures
        ({
            let next = apply_step_spec(phase, fetch_step_spec(phase, msg, current));
            &&& msg is Leader ==> (next is StableLeader || next is Prefetching)
            &&& msg matches MessageView::Follower(l) ==> next matches FetchPhaseView::Replicating {
                leader,
                ..
            } && leader == l
            &&& msg is Election ==> next is Unstable
            &&& msg is PeerSchedule ==> match phase {
                FetchPhaseView::Unstable => next is Unstable,
                FetchPhaseView::StableLeader => next is StableLeader,
                FetchPhaseView::Prefetching(s) => next == FetchPhaseView::Prefetching(s),
                FetchPhaseView::Replicating { leader, .. } => next matches FetchPhaseView::Replicating {
                    leader: l2,
                    ..
                } && l2 == leader,
            }
        }),
{
}

/// Law: the stable schedule is never kept across a change of what the
/// fetcher does: every step that changes the phase drops it.
pub proof fn phase_change_resets_stable(phase: FetchPhaseView, msg: MessageView, current: bool)
    ensures
        apply_step_spec(phase, fetch_step_spec(phase, msg, current)) != phase ==> resets_stable_schedule(
            fetch_step_spec(phase, msg, current),
        ),
{
}

/// Law: a follower that holds the reported schedule of its own leader as
/// the stable one, with nothing left to fetch, does nothing.
pub proof fn current_schedule_is_kept(leader: Seq<u8>, hash: Seq<char>)
    ensures
        fetch_step_spec(
            FetchPhaseView::Replicating { leader, target: None },
            MessageView::PeerSchedule(leader, hash),
            true,
        ) == FetchStepView::Keep,
{
}

/// Steps after which the stable schedule no longer holds.
pub open spec fn resets_stable_schedule(step: FetchStepView) -> bool {
    match step {
        FetchStepView::Unstable => true,
        FetchStepView::StartPrefetch => true,
        FetchStepView::StartReplica(_) => true,
        FetchStepView::Retarget(_) => true,
        _ => false,
    }
}

/// How the fetcher reacts to a message (see `fetch_step_spec`).
pub fn fetch_step(phase: &FetchPhase, msg: &Message, schedule_is_current: bool) -> (r: FetchStep)
    ensures
        r@ == fetch_step_spec(phase@, msg@, schedule_is_current),
{
    match msg {
        Message::Leader => match phase {
            FetchPhase::StableLeader => FetchStep::Keep,
            FetchPhase::Prefetching(_) => FetchStep::Keep,
            _ => FetchStep::StartPrefetch,
        },
        Message::Follower(l) => match phase {
            FetchPhase::Replicating { leader, .. } => if leader.same_as(l) {
                FetchStep::Keep
            } else {
                FetchStep::StartReplica(l.duplicate())
            },
            _ => FetchStep::StartReplica(l.duplicate()),
        },
        Message::Election => match phase {
            FetchPhase::Unstable => FetchStep::Keep,
            _ => FetchStep::Unstable,
        },
        Message::PeerSchedule(peer, stamp) => match phase {
            FetchPhase::Prefetching(_) => FetchStep::Report(peer.duplicate(), stamp.hash.clone()),
            FetchPhase::Replicating { leader, target } => if leader.same_as(peer) {
                if target.is_none() && schedule_is_current {
                    FetchStep::Keep
                } else {
                    FetchStep::Retarget(stamp.hash.clone())
                }
            } else {
                FetchStep::Keep
            },
            _ => FetchStep::Keep,
        },
    }
}

/// The phase after a step is taken (see `apply_step_spec`).
pub fn apply_step(phase: FetchPhase, step: FetchStep) -> (r: FetchPhase)
    ensures
        r@ == apply_step_spec(phase@, step@),
{
    match step {
        FetchStep::Keep => phase,
        FetchStep::Unstable => FetchPhase::Unstable,
        FetchStep::StartPrefetch => FetchPhase::Prefetching(PrefetchState::Graceful),
        FetchStep::Report(_, _) => phase,
        FetchStep::StartReplica(l) => FetchPhase::Replicating { leader: l, target: None },
        FetchStep::Retarget(h) => match phase {
            FetchPhase::Replicating { leader, .. } => FetchPhase::Replicating {
                leader,
                target: Some(h),
            },
            other => other,
        },
    }
}

/// Whether a step drops the stable schedule (see `resets_stable_schedule`).
pub fn step_resets_stable_schedule(step: &FetchStep) -> (r: bool)
    ensures
        r == resets_stable_schedule(step@),
{
    match step {
        FetchStep::Unstable => true,
        FetchStep::StartPrefetch => true,
        FetchStep::StartReplica(_) => true,
        FetchStep::Retarget(_) => true,
        _ => false,
    }
}

pub enum PublicStateView {
    Unstable,
    StableLeader,
    Prefetching(PrefetchState),
    Replicating { leader: Seq<u8>, schedule: Option<Seq<char>> },
}

impl View for PublicState {
    type V = PublicStateView;

    open spec fn view(&self) -> PublicStateView {
        match self {
            PublicState::Unstable => PublicStateView::Unstable,
            PublicState::StableLeader => PublicStateView::StableLeader,
            PublicState::Prefetching(s) => PublicStateView::Prefetching(*s),
            PublicState::Replicating { leader, schedule } => PublicStateView::Replicating {
                leader: leader@,
                schedule: opt_string_view(*schedule),
            },
        }
    }
}

/// The published state of a phase: the same information, the replication
/// target published as the schedule being fetched.
pub open spec fn public_state_spec(phase: FetchPhaseView) -> PublicStateView {
    match phase {
        FetchPhaseView::Unstable => PublicStateView::Unstable,
        FetchPhaseView::StableLeader => PublicStateView::StableLeader,
        FetchPhaseView::Prefetching(s) => PublicStateView::Prefetching(s),
        FetchPhaseView::Replicating { leader, target } => PublicStateView::Replicating {
            leader,
            schedule: target,
        },
    }
}

fn clone_opt_string(s: &Option<String>) -> (r: Option<String>)
    ensures
        opt_string_view(r) == opt_string_view(*s),
{
    match s {
        Some(x) => Some(x.clone()),
        None => None,
    }
}

impl FetchPhase {
    /// The published state of the phase (see `public_state_spec`).
    pub fn public_state(&self) -> (r: PublicState)
        ensures
            r@ == public_state_spec(self@),
    {
        match self {
            FetchPhase::Unstable => PublicState::Unstable,
            FetchPhase::StableLeader => PublicState::StableLeader,
            FetchPhase::Prefetching(s) => PublicState::Prefetching(*s),
            FetchPhase::Replicating { leader, target } => PublicState::Replicating {
                leader: leader.duplicate(),
                schedule: clone_opt_string(target),
            },
        }
    }
}

impl PublicState {
    /// Whether the published state says this node is a leader with a
    /// stable set of schedules.
    pub fn is_stable_leader(&self) -> (r: bool)
        ensures
            r == (self@ is StableLeader),
    {
        match self {
            PublicState::StableLeader => true,
            _ => false,
        }
    }
}

/// Connection to the leader held by a replicating follower.
#[derive(Clone, Copy, Debug, PartialEq, Eq, Structural)]
pub enum ConnPhase {
    /// No connection and none needed yet.
    Idle,
    /// A connection failed; waiting for the reconnect timer.
    Failed,
    /// Connecting to the leader.
    Connecting,
    /// Connected, no request in flight.
    KeepAlive,
    /// A request for the schedule is in flight.
    Waiting,
}

/// Outcome of polling an operation.
#[derive(Clone, Copy, Debug, PartialEq, Eq, Structural)]
pub enum PollOutcome {
    Ready,
    NotReady,
    Failed,
}

/// What a request for the schedule has produced so far.
pub enum Reply {
    /// A schedule with this hash arrived.
    Schedule(String),
    /// The request failed (bad status, undecodable schedule).
    RequestFailed,
    /// Nothing yet.
    Pending,
    /// The request was dropped without a reply.
    Dropped,
}

/// What the caller observed when it polled the current connection phase.
pub enum ConnEvent {
    /// `Idle` with a target: whether the leader's address is known.
    LeaderAddress { known: bool },
    /// `Failed`: whether the reconnect timer fired.
    Timer { fired: bool },
    /// `Connecting`: the connection attempt.
    Connection(PollOutcome),
    /// `KeepAlive` with a target: handing the request to the connection.
    Send(PollOutcome),
    /// `KeepAlive` without a target: whether flushing the connection worked.
    Flush { ok: bool },
    /// `Waiting`: the reply so far, and whether the connection is healthy.
    Response { reply: Reply, connection_ok: bool },
}

/// The reaction of the connection machine to an event.
pub struct ConnStep {
    /// The next phase. `Failed` means: arm a randomized reconnect timer;
    /// `Connecting` from `Idle`: connect to the leader's address;
    /// `KeepAlive` from `Connecting`: wrap the socket in the protocol.
    pub next: ConnPhase,
    /// Stop polling until woken up; otherwise poll the next phase at once.
    pub stop: bool,
    /// The schedule that arrived is the target: store it as the stable
    /// schedule and clear the target.
    pub accept: bool,
}

/// Whether an event is the one the caller observes in a phase.
pub open spec fn event_fits(phase: ConnPhase, has_target: bool, event: ConnEvent) -> bool {
    match phase {
        ConnPhase::Idle => has_target ==> event is LeaderAddress,
        ConnPhase::Failed => event is Timer,
        ConnPhase::Connecting => event is Connection,
        ConnPhase::KeepAlive => if has_target { event is Send } else { event is Flush },
        ConnPhase::Waiting => event is Response,
    }
}

/// A request is only in flight while there is a target.
pub open spec fn conn_consistent(phase: ConnPhase, target: Option<Seq<char>>) -> bool {
    phase == ConnPhase::Waiting ==> target is Some
}

pub open spec fn step(next: ConnPhase, stop: bool, accept: bool) -> (ConnPhase, bool, bool) {
    (next, stop, accept)
}

/// The reaction of the connection machine (see `ConnStep`).
pub open spec fn conn_step_spec(
    phase: ConnPhase,
    target: Option<Seq<char>>,
    event: ConnEvent,
) -> (ConnPhase, bool, bool) {
    match phase {
        ConnPhase::Idle => if target is None {
            step(ConnPhase::Idle, true, false)
        } else {
            match event {
                ConnEvent::LeaderAddress { known } => if known {
                    step(ConnPhase::Connecting, false, false)
                } else {
                    step(ConnPhase::Failed, false, false)
                },
                _ => step(phase, true, false),
            }
        },
        ConnPhase::Failed => match event {
            ConnEvent::Timer { fired } => if fired {
                step(ConnPhase::Idle, false, false)
            } else {
                step(ConnPhase::Failed, true, false)
            },
            _ => step(phase, true, false),
        },
        ConnPhase::Connecting => match event {
            ConnEvent::Connection(PollOutcome::Ready) => step(ConnPhase::KeepAlive, false, false),
            ConnEvent::Connection(PollOutcome::NotReady) => step(ConnPhase::Connecting, true, false),
            ConnEvent::Connection(PollOutcome::Failed) => step(ConnPhase::Failed, false, false),
            _ => step(phase, true, false),
        },
        ConnPhase::KeepAlive => match event {
            ConnEvent::Send(PollOutcome::Ready) => step(ConnPhase::Waiting, false, false),
            ConnEvent::Send(PollOutcome::NotReady) => step(ConnPhase::KeepAlive, true, false),
            ConnEvent::Send(PollOutcome::Failed) => step(ConnPhase::Failed, false, false),
            ConnEvent::Flush { ok } => if ok {
                step(ConnPhase::KeepAlive, true, false)
            } else {
                step(ConnPhase::Failed, false, false)
            },
            _ => step(phase, true, false),
        },
        ConnPhase::Waiting => match event {
            ConnEvent::Response { reply, connection_ok } => {
                let accept = match reply {
                    Reply::Schedule(h) => target == Some(h@),
                    _ => false,
                };
                if !connection_ok {
                    step(ConnPhase::Failed, false, accept)
                } else {
                    match reply {
                        Reply::Schedule(_) => step(ConnPhase::KeepAlive, false, accept),
                        Reply::RequestFailed => step(ConnPhase::Failed, false, false),
                        Reply::Pending => step(ConnPhase::Waiting, true, false),
                        Reply::Dropped => step(ConnPhase::Failed, false, false),
                    }
                }
            },
            _ => step(phase, true, false),
        },
    }
}

/// The reaction of the connection machine to what the caller observed in
/// the current phase (see `conn_step_spec`).
pub fn conn_step(phase: ConnPhase, target: &Option<String>, event: &ConnEvent) -> (r: ConnStep)
    requires
        conn_consistent(phase, opt_string_view(*target)),
        event_fits(phase, target is Some, *event),
    ensures
        (r.next, r.stop, r.accept) == conn_step_spec(phase, opt_string_view(*target), *event),
{
    match phase {
        ConnPhase::Idle => match (target, event) {
            (None, _) => ConnStep { next: ConnPhase::Idle, stop: true, accept: false },
            (Some(_), ConnEvent::LeaderAddress { known }) => if *known {
                ConnStep { next: ConnPhase::Connecting, stop: false, accept: false }
            } else {
                ConnStep { next: ConnPhase::Failed, stop: false, accept: false }
            },
            _ => ConnStep { next: phase, stop: true, accept: false },
        },
        ConnPhase::Failed => match event {
            ConnEvent::Timer { fired } => if *fired {
                ConnStep { next: ConnPhase::Idle, stop: false, accept: false }
            } else {
                ConnStep { next: ConnPhase::Failed, stop: true, accept: false }
            },
            _ => ConnStep { next: phase, stop: true, accept: false },
        },
        ConnPhase::Connecting => match event {
            ConnEvent::Connection(PollOutcome::Ready) => {
                ConnStep { next: ConnPhase::KeepAlive, stop: false, accept: false }
            },
            ConnEvent::Connection(PollOutcome::NotReady) => {
                ConnStep { next: ConnPhase::Connecting, stop: true, accept: false }
            },
            ConnEvent::Connection(PollOutcome::Failed) => {
                ConnStep { next: ConnPhase::Failed, stop: false, accept: false }
            },
            _ => ConnStep { next: phase, stop: true, accept: false },
        },
        ConnPhase::KeepAlive => match event {
            ConnEvent::Send(PollOutcome::Ready) => {
                ConnStep { next: ConnPhase::Waiting, stop: false, accept: false }
            },
            ConnEvent::Send(PollOutcome::NotReady) => {
                ConnStep { next: ConnPhase::KeepAlive, stop: true, accept: false }
            },
            ConnEvent::Send(PollOutcome::Failed) => {
                ConnStep { next: ConnPhase::Failed, stop: false, accept: false }
            },
            ConnEvent::Flush { ok } => if *ok {
                ConnStep { next: ConnPhase::KeepAlive, stop: true, accept: false }
            } else {
                ConnStep { next: ConnPhase::Failed, stop: false, accept: false }
            },
            _ => ConnStep { next: phase, stop: true, accept: false },
        },
        ConnPhase::Waiting => match event {
            ConnEvent::Response { reply, connection_ok } => {
                let accept = match (reply, target) {
                    (Reply::Schedule(h), Some(t)) => str_eq(h.as_str(), t.as_str()),
                    _ => false,
                };
                if !*connection_ok {
                    ConnStep { next: ConnPhase::Failed, stop: false, accept }
                } else {
                    match reply {
                        Reply::Schedule(_) => ConnStep { next: ConnPhase::KeepAlive, stop: false, accept },
                        Reply::RequestFailed => ConnStep { next: ConnPhase::Failed, stop: false, accept: false },
                        Reply::Pending => ConnStep { next: ConnPhase::Waiting, stop: true, accept: false },
                        Reply::Dropped => ConnStep { next: ConnPhase::Failed, stop: false, accept: false },
                    }
                }
            },
            _ => ConnStep { next: phase, stop: true, accept: false },
        },
    }
}

/// The target after a step: cleared when the schedule was accepted.
pub open spec fn target_after(target: Option<Seq<char>>, accept: bool) -> Option<Seq<char>> {
    if accept { None } else { target }
}

/// Law: a request is never left in flight without a target. Every step of
/// the connection machine from a consistent state, with the target cleared
/// when a schedule is accepted, leads to a consistent state again.
pub proof fn conn_step_keeps_consistency(phase: ConnPhase, target: Option<Seq<char>>, event: ConnEvent)
    requires
        conn_consistent(phase, target),
        event_fits(phase, target is Some, event),
    ensures
        ({
            let (next, _, accept) = conn_step_spec(phase, target, event);
            conn_consistent(next, target_after(target, accept))
        }),
{
}

/// Law: a schedule is accepted only when it is the target, and only from a
/// request in flight.
pub proof fn conn_accepts_only_target(phase: ConnPhase, target: Option<Seq<char>>, event: ConnEvent)
    requires
        conn_step_spec(phase, target, event).2,
    ensures
        phase == ConnPhase::Waiting,
        event matches ConnEvent::Response { reply: Reply::Schedule(h), .. } && target == Some(h@),
{
}

/// A one-shot download of a schedule from a peer while prefetching.
#[derive(Clone, Copy, Debug, PartialEq, Eq, Structural)]
pub enum DownloadPhase {
    Connecting,
    WaitRequest,
    WaitResponse,
}

/// Why a download failed.
#[derive(Clone, Copy, Debug, PartialEq, Eq, Structural)]
pub enum DownloadFailure {
    /// The connection could not be made.
    Connect,
    /// The request could not be handed to the connection.
    Send,
    /// The connection broke while waiting for the reply.
    Connection,
    /// The peer answered with an error or an undecodable schedule.
    Request,
    /// The request was dropped without a reply.
    Cancelled,
}

/// The reaction of a download to what was observed in its phase.
#[derive(Clone, Copy, Debug, PartialEq, Eq, Structural)]
pub enum DownloadStep {
    /// Go on with this phase at once.
    Continue(DownloadPhase),
    /// Wait in this phase until woken up.
    Pending(DownloadPhase),
    /// The schedule arrived.
    Done,
    /// The download failed.
    Failed(DownloadFailure),
}

/// What the caller observed when it polled a download phase.
pub enum DownloadEvent {
    /// `Connecting` or `WaitRequest`: the connection attempt or the hand-off
    /// of the request.
    Poll(PollOutcome),
    /// `WaitResponse`: the reply so far, and whether the connection is
    /// healthy.
    Response { reply: Reply, connection_ok: bool },
}

pub open spec fn download_event_fits(phase: DownloadPhase, event: DownloadEvent) -> bool {
    match phase {
        DownloadPhase::WaitResponse => event is Response,
        _ => event is Poll,
    }
}

/// The reaction of a download (see `DownloadStep`).
pub open spec fn download_step_spec(phase: DownloadPhase, event: DownloadEvent) -> DownloadStep {
    match (phase, event) {
        (DownloadPhase::Connecting, DownloadEvent::Poll(o)) => match o {
            PollOutcome::Ready => DownloadStep::Continue(DownloadPhase::WaitRequest),
            PollOutcome::NotReady => DownloadStep::Pending(DownloadPhase::Connecting),
            PollOutcome::Failed => DownloadStep::Failed(DownloadFailure::Connect),
        },
        (DownloadPhase::WaitRequest, DownloadEvent::Poll(o)) => match o {
            PollOutcome::Ready => DownloadStep::Continue(DownloadPhase::WaitResponse),
            PollOutcome::NotReady => DownloadStep::Pending(DownloadPhase::WaitRequest),
            PollOutcome::Failed => DownloadStep::Failed(DownloadFailure::Send),
        },
        (DownloadPhase::WaitResponse, DownloadEvent::Response { reply, connection_ok }) => {
            if !connection_ok {
                DownloadStep::Failed(DownloadFailure::Connection)
            } else {
                match reply {
                    Reply::Schedule(_) => DownloadStep::Done,
                    Reply::RequestFailed => DownloadStep::Failed(DownloadFailure::Request),
                    Reply::Pending => DownloadStep::Pending(DownloadPhase::WaitResponse),
                    Reply::Dropped => DownloadStep::Failed(DownloadFailure::Cancelled),
                }
            }
        },
        _ => DownloadStep::Pending(phase),
    }
}

/// The reaction of a download to what was observed (see
/// `download_step_spec`).
pub fn download_step(phase: DownloadPhase, event: &DownloadEvent) -> (r: DownloadStep)
    requires
        download_event_fits(phase, *event),
    ensures
        r == download_step_spec(phase, *event),
{
    match (phase, event) {
        (DownloadPhase::Connecting, DownloadEvent::Poll(o)) => match o {
            PollOutcome::Ready => DownloadStep::Continue(DownloadPhase::WaitRequest),
            PollOutcome::NotReady => DownloadStep::Pending(DownloadPhase::Connecting),
            PollOutcome::Failed => DownloadStep::Failed(DownloadFailure::Connect),
        },
        (DownloadPhase::WaitRequest, DownloadEvent::Poll(o)) => match o {
            PollOutcome::Ready => DownloadStep::Continue(DownloadPhase::WaitResponse),
            PollOutcome::NotReady => DownloadStep::Pending(DownloadPhase::WaitRequest),
            PollOutcome::Failed => DownloadStep::Failed(DownloadFailure::Send),
        },
        (DownloadPhase::WaitResponse, DownloadEvent::Response { reply, connection_ok }) => {
            if !*connection_ok {
                DownloadStep::Failed(DownloadFailure::Connection)
            } else {
                match reply {
                    Reply::Schedule(_) => DownloadStep::Done,
                    Reply::RequestFailed => DownloadStep::Failed(DownloadFailure::Request),
                    Reply::Pending => DownloadStep::Pending(DownloadPhase::WaitResponse),
                    Reply::Dropped => DownloadStep::Failed(DownloadFailure::Cancelled),
                }
            }
        },
        _ => DownloadStep::Pending(phase),
    }
}

/// Law: a download only moves forward: connecting, then sending, then
/// waiting for the reply; it is done only after a reply arrived.
pub proof fn download_moves_forward(phase: DownloadPhase, event: DownloadEvent)
    requires
        download_event_fits(phase, event),
    ensures
        download_step_spec(phase, event) matches DownloadStep::Continue(next) ==> (
            (phase == DownloadPhase::Connecting && next == DownloadPhase::WaitRequest)
            || (phase == DownloadPhase::WaitRequest && next == DownloadPhase::WaitResponse)),
        download_step_spec(phase, event) matches DownloadStep::Pending(p) ==> p == phase,
        download_step_spec(phase, event) == DownloadStep::Done ==> phase == DownloadPhase::WaitResponse
            && event matches DownloadEvent::Response { reply: Reply::Schedule(_), connection_ok: true },
{
}

/// Decision of the prefetcher on each wake-up.
#[derive(Clone, Copy, Debug, PartialEq, Eq, Structural)]
pub enum PrefetchDecision {
    /// Hand the downloaded schedules to the scheduler.
    Finish,
    /// The grace period is over: switch to `Fetching`, arm the final
    /// deadline and poll it once; finish if it has passed already.
    StartFetching,
    /// Keep waiting.
    Wait,
}

/// Decision of the prefetcher: while fetching it finishes as soon as no
/// reported schedule is missing; otherwise the timer decides, ending the
/// grace period or, when fetching, the whole prefetch.
pub open spec fn prefetch_decision_spec(state: PrefetchState, nothing_missing: bool, timer_fired: bool) -> PrefetchDecision {
    if state == PrefetchState::Fetching && nothing_missing {
        PrefetchDecision::Finish
    } else if timer_fired {
        if state == PrefetchState::Graceful {
            PrefetchDecision::StartFetching
        } else {
            PrefetchDecision::Finish
        }
    } else {
        PrefetchDecision::Wait
    }
}

/// Decision of the prefetcher (see `prefetch_decision_spec`);
/// `nothing_missing` tells that no reported schedule is still missing and
/// `timer_fired` that the current deadline has passed.
pub fn prefetch_decision(state: PrefetchState, nothing_missing: bool, timer_fired: bool) -> (r: PrefetchDecision)
    ensures
        r == prefetch_decision_spec(state, nothing_missing, timer_fired),
{
    if state == PrefetchState::Fetching && nothing_missing {
        PrefetchDecision::Finish
    } else if timer_fired {
        if state == PrefetchState::Graceful {
            PrefetchDecision::StartFetching
        } else {
            PrefetchDecision::Finish
        }
    } else {
        PrefetchDecision::Wait
    }
}

/// Law: a download waits while its operation is still in progress. Polling
/// a connection or a request hand-off that is not ready keeps the download
/// pending in the same phase; a download fails only when the poll failed,
/// the connection broke, or the reply was an error or was dropped.
pub proof fn download_fails_only_on_failure(phase: DownloadPhase, event: DownloadEvent)
    requires
        download_event_fits(phase, event),
    ensures
        event == DownloadEvent::Poll(PollOutcome::NotReady) ==> download_step_spec(phase, event)
            == DownloadStep::Pending(phase),
        download_step_spec(phase, event) is Failed ==> (event == DownloadEvent::Poll(PollOutcome::Failed)
            || event matches DownloadEvent::Response { connection_ok: false, .. }
            || event matches DownloadEvent::Response { reply: Reply::RequestFailed, .. }
            || event matches DownloadEvent::Response { reply: Reply::Dropped, .. }),
        event matches DownloadEvent::Response { reply: Reply::Pending, connection_ok: true }
            ==> download_step_spec(phase, event) == DownloadStep::Pending(phase),
{
}

/// Law: how a download ends. It is done exactly when a schedule arrived on
/// a healthy connection, and each failure names what failed: the connect,
/// the hand-off of the request, the connection, the request, or a dropped
/// reply.
pub proof fn download_failure_names_its_cause(phase: DownloadPhase, event: DownloadEvent)
    requires
        download_event_fits(phase, event),
    ensures
        (download_step_spec(phase, event) == DownloadStep::Done) == (event matches DownloadEvent::Response {
            reply: Reply::Schedule(_),
            connection_ok: true,
        }),
        download_step_spec(phase, event) == DownloadStep::Failed(DownloadFailure::Connect)
            <==> (phase == DownloadPhase::Connecting && event == DownloadEvent::Poll(PollOutcome::Failed)),
        download_step_spec(phase, event) == DownloadStep::Failed(DownloadFailure::Send)
            <==> (phase == DownloadPhase::WaitRequest && event == DownloadEvent::Poll(PollOutcome::Failed)),
        download_step_spec(phase, event) == DownloadStep::Failed(DownloadFailure::Connection)
            <==> (event matches DownloadEvent::Response { connection_ok: false, .. }),
        download_step_spec(phase, event) == DownloadStep::Failed(DownloadFailure::Request)
            <==> (event matches DownloadEvent::Response { reply: Reply::RequestFailed, connection_ok: true }),
        download_step_spec(phase, event) == DownloadStep::Failed(DownloadFailure::Cancelled)
            <==> (event matches DownloadEvent::Response { reply: Reply::Dropped, connection_ok: true }),
{
}

} // verus!
