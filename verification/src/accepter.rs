//! The accepting side's bookkeeping: one bounded queue of finished sessions
//! for each session purpose, filled by the responders of inbound handshakes
//! and emptied by the consumers of each purpose.
//!
//! A responder accepts a request only after a slot of the queue is reserved
//! for it, so a session that was accepted always has a place to go, and a
//! full queue shows as rejections on the wire.

use vstd::prelude::*;
use crate::handshake::{
    ActionModel, EventModel, Handshake, HandshakeAction, HandshakeEvent,
    HandshakeModel, HandshakeRole, Phase,
};
use crate::message::V1ResultType;
use crate::model::{tcp_text, OmniAddress, Session, SessionModel, SessionType};
use crate::queue::{QueueModel, SessionQueue};
use crate::version::{SessionVersion, V1_BIT};

verus! {

/// How many sessions of one purpose may wait for their consumer.
pub const SESSION_QUEUE_CAPACITY: usize = 20;

/// How many workers accept inbound connections side by side.
pub const ACCEPT_WORKER_COUNT: usize = 3;

/// How many seconds a worker waits before it accepts the next connection.
pub const ACCEPT_DELAY_SECS: u64 = 1;

/// What a consumer gets when it asks for a session.
pub enum AcceptOutcome<S> {
    /// The oldest session that waited.
    Ready(Session<S>),
    /// None waits; ask again when one was published or the accepter ended.
    Pending,
    /// None waits and the accepter was terminated: none will come.
    Closed,
}

/// What an accepter holds.
pub struct AccepterModel<S> {
    /// The queue of the sessions whose purpose is node finding.
    pub node_finder: QueueModel<Session<S>>,
    /// Whether the accepter was terminated.
    pub terminated: bool,
}

impl<S> AccepterModel<S> {
    /// Every queue is well-formed, and the queue of a purpose holds
    /// sessions of that purpose only.
    pub open spec fn wf(self) -> bool {
        &&& self.node_finder.wf()
        &&& forall|typ: SessionType, i: int|
            0 <= i < self.queue(typ).items.len() ==> (#[trigger] self.queue(typ).items[i])@.typ
                == typ
    }

    /// The queue of a purpose.
    pub open spec fn queue(self, typ: SessionType) -> QueueModel<Session<S>> {
        match typ {
            SessionType::NodeFinder => self.node_finder,
        }
    }

    /// The accepter with the queue of one purpose replaced.
    pub open spec fn with_queue(self, typ: SessionType, queue: QueueModel<Session<S>>) -> Self {
        match typ {
            SessionType::NodeFinder => AccepterModel { node_finder: queue, ..self },
        }
    }

    /// A new accepter: an empty queue of the given capacity for every purpose.
    pub open spec fn initial(capacity: nat) -> Self {
        AccepterModel { node_finder: QueueModel::empty(capacity), terminated: false }
    }

    /// The accepter after a responder's handshake took one step with it: a
    /// slot is reserved where the handshake asked for one, and given back
    /// where the handshake failed while it held one.
    pub open spec fn advance(self, handshake: HandshakeModel, event: EventModel) -> (
        Self,
        HandshakeModel,
        ActionModel,
    ) {
        let (stepped, action) = handshake.step(event);
        match action {
            ActionModel::ReserveSlot(typ) => {
                let reserved = self.queue(typ).can_reserve();
                let (answered, result) = stepped.step(EventModel::SlotReserved(reserved));
                if reserved {
                    (self.with_queue(typ, self.queue(typ).reserve()), answered, result)
                } else {
                    (self, answered, result)
                }
            },
            ActionModel::Abort { error, release: Some(typ) } => {
                if self.queue(typ).reserved > 0 {
                    (self.with_queue(typ, self.queue(typ).release()), stepped, action)
                } else {
                    (self, stepped, action)
                }
            },
            _ => (self, stepped, action),
        }
    }
}

/// The queues of an accepter and its end-of-life flag.
pub struct SessionAccepter<S> {
    node_finder: SessionQueue<Session<S>>,
    terminated: bool,
}

impl<S> View for SessionAccepter<S> {
    type V = AccepterModel<S>;

    closed spec fn view(&self) -> AccepterModel<S> {
        AccepterModel { node_finder: self.node_finder@, terminated: self.terminated }
    }
}

impl<S> SessionAccepter<S> {
    /// An accepter with an empty queue of the usual capacity for every purpose.
    pub fn new() -> (r: SessionAccepter<S>)
        ensures
            r@ == AccepterModel::<S>::initial(SESSION_QUEUE_CAPACITY as nat),
            r@.wf(),
    {
        SessionAccepter::with_capacity(SESSION_QUEUE_CAPACITY)
    }

    /// An accepter with an empty queue of the given capacity for every purpose.
    pub fn with_capacity(capacity: usize) -> (r: SessionAccepter<S>)
        ensures
            r@ == AccepterModel::<S>::initial(capacity as nat),
            r@.wf(),
    {
        SessionAccepter { node_finder: SessionQueue::new(capacity), terminated: false }
    }

    /// The workers of the accepter, each before its first step. The caller
    /// runs each of them as a task of its own.
    pub fn create_accept_task(&self) -> (r: Vec<AccepterTask>)
        ensures
            r@.len() == ACCEPT_WORKER_COUNT,
            forall|i: int| 0 <= i < r@.len() ==> (#[trigger] r@[i])@ == TaskPhase::Idle,
    {
        let mut tasks: Vec<AccepterTask> = Vec::new();
        let mut i: usize = 0;
        while i < ACCEPT_WORKER_COUNT
            invariant
                i <= ACCEPT_WORKER_COUNT,
                tasks@.len() == i,
                forall|j: int| 0 <= j < tasks@.len() ==> (#[trigger] tasks@[j])@ == TaskPhase::Idle,
            decreases ACCEPT_WORKER_COUNT - i,
        {
            tasks.push(AccepterTask::new());
            i = i + 1;
        }
        tasks
    }

    /// Marks the accepter as terminated. Sessions that wait stay where they
    /// are; doing it again changes nothing.
    pub fn terminate(&mut self)
        ensures
            final(self)@ == (AccepterModel { terminated: true, ..old(self)@ }),
    {
        self.terminated = true;
    }

    /// Whether the accepter was terminated.
    pub fn is_terminated(&self) -> (r: bool)
        ensures
            r == self@.terminated,
    {
        self.terminated
    }

    /// How many sessions of a purpose wait for their consumer.
    pub fn waiting(&self, typ: SessionType) -> (r: usize)
        ensures
            r == self@.queue(typ).items.len(),
    {
        match typ {
            SessionType::NodeFinder => self.node_finder.len(),
        }
    }

    /// How many slots of a purpose are reserved and not yet filled.
    pub fn reserved(&self, typ: SessionType) -> (r: usize)
        ensures
            r == self@.queue(typ).reserved,
    {
        match typ {
            SessionType::NodeFinder => self.node_finder.reserved(),
        }
    }

    /// How many sessions of a purpose the accepter has room for.
    pub fn capacity(&self, typ: SessionType) -> (r: usize)
        ensures
            r == self@.queue(typ).capacity,
    {
        match typ {
            SessionType::NodeFinder => self.node_finder.capacity(),
        }
    }

    /// Hands out the oldest waiting session of a purpose. Without one it
    /// says whether one may still come.
    pub fn accept(&mut self, typ: &SessionType) -> (r: AcceptOutcome<S>)
        requires
            old(self)@.wf(),
        ensures
            final(self)@.wf(),
            r matches AcceptOutcome::Ready(session) ==> session@.typ == *typ,
            old(self)@.queue(*typ).items.len() > 0 ==> r == AcceptOutcome::Ready(
                old(self)@.queue(*typ).items[0],
            ) && final(self)@ == old(self)@.with_queue(*typ, old(self)@.queue(*typ).pop()),
            old(self)@.queue(*typ).items.len() == 0 ==> final(self)@ == old(self)@ && r == (if old(
                self,
            )@.terminated {
                AcceptOutcome::<S>::Closed
            } else {
                AcceptOutcome::<S>::Pending
            }),
    {
        let taken = match typ {
            SessionType::NodeFinder => self.node_finder.try_recv(),
        };
        match taken {
            Some(session) => AcceptOutcome::Ready(session),
            None => {
                if self.terminated {
                    AcceptOutcome::Closed
                } else {
                    AcceptOutcome::Pending
                }
            },
        }
    }

    /// Reserves one slot in the queue of a purpose if one is free, and says
    /// whether it did.
    pub fn try_reserve(&mut self, typ: SessionType) -> (ok: bool)
        requires
            old(self)@.wf(),
        ensures
            final(self)@.wf(),
            ok == old(self)@.queue(typ).can_reserve(),
            final(self)@ == (if ok {
                old(self)@.with_queue(typ, old(self)@.queue(typ).reserve())
            } else {
                old(self)@
            }),
    {
        match typ {
            SessionType::NodeFinder => self.node_finder.try_reserve(),
        }
    }

    /// Gives one reservation of a purpose back, and says whether there was one.
    pub fn release(&mut self, typ: SessionType) -> (ok: bool)
        requires
            old(self)@.wf(),
        ensures
            final(self)@.wf(),
            ok == (old(self)@.queue(typ).reserved > 0),
            final(self)@ == (if ok {
                old(self)@.with_queue(typ, old(self)@.queue(typ).release())
            } else {
                old(self)@
            }),
    {
        match typ {
            SessionType::NodeFinder => self.node_finder.release(),
        }
    }

    /// Puts a session into a slot that was reserved for its purpose, behind
    /// the sessions that wait already. Without a reservation nothing changes
    /// and the session comes back.
    pub fn publish(&mut self, session: Session<S>) -> (r: Result<(), Session<S>>)
        requires
            old(self)@.wf(),
        ensures
            final(self)@.wf(),
            old(self)@.queue(session@.typ).reserved > 0 ==> r is Ok && final(self)@ == old(
                self,
            )@.with_queue(session@.typ, old(self)@.queue(session@.typ).commit(session)),
            old(self)@.queue(session@.typ).reserved == 0 ==> r == Err::<(), Session<S>>(session)
                && final(self)@ == old(self)@,
    {
        match session.typ() {
            SessionType::NodeFinder => self.node_finder.send(session),
        }
    }

    /// Takes one step of a responder's handshake and does the accepter's part
    /// of it: where the handshake asks for a queue slot, the accepter tries
    /// to reserve one at once and the handshake goes on with the outcome;
    /// where the handshake fails while it holds a slot, the slot is given
    /// back. The action that comes out is never `ReserveSlot`.
    pub fn advance(&mut self, handshake: &mut Handshake, event: HandshakeEvent) -> (action:
        HandshakeAction)
        requires
            old(self)@.wf(),
        ensures
            final(self)@.wf(),
            (final(self)@, final(handshake)@, action@) == old(self)@.advance(
                old(handshake)@,
                event@,
            ),
    {
        let action = handshake.step(event);
        match action {
            HandshakeAction::ReserveSlot(typ) => {
                let reserved = self.try_reserve(typ);
                handshake.step(HandshakeEvent::SlotReserved(reserved))
            },
            HandshakeAction::Abort { error, release: Some(typ) } => {
                self.release(typ);
                HandshakeAction::Abort { error, release: Some(typ) }
            },
            other => other,
        }
    }

    /// Ends a responder's handshake: if it is established, its session is
    /// made over `stream` and published into the slot that the handshake
    /// reserved. In every other case nothing changes and the stream comes back.
    pub fn establish(&mut self, handshake: Handshake, stream: S) -> (r: Result<(), S>)
        requires
            old(self)@.wf(),
        ensures
            final(self)@.wf(),
            match handshake@.phase {
                Phase::Established(typ) if handshake@.role == HandshakeRole::Responder && old(
                    self,
                )@.queue(typ).reserved > 0 => {
                    &&& r is Ok
                    &&& final(self)@.terminated == old(self)@.terminated
                    &&& final(self)@.queue(typ).reserved == old(self)@.queue(typ).reserved - 1
                    &&& final(self)@.queue(typ).capacity == old(self)@.queue(typ).capacity
                    &&& final(self)@.queue(typ).items.len() == old(self)@.queue(typ).items.len()
                        + 1
                    &&& final(self)@.queue(typ).items.drop_last() == old(self)@.queue(typ).items
                    &&& final(self)@.queue(typ).items.last()@ == (SessionModel {
                        typ,
                        address: handshake@.peer,
                        handshake_type: handshake@.side(),
                        signature: handshake@.peer_cert,
                        stream,
                    })
                },
                _ => r == Err::<(), S>(stream) && final(self)@ == old(self)@,
            },
    {
        match (handshake.phase(), handshake.role()) {
            (Phase::Established(typ), HandshakeRole::Responder) => {
                if self.reserved(typ) == 0 {
                    return Err(stream);
                }
                match handshake.into_session(stream) {
                    Ok(session) => {
                        let ghost before = self@.queue(typ).items;
                        let sent = self.publish(session);
                        proof {
                            assert(self@.queue(typ).items == before.push(session));
                            assert(before.push(session).drop_last() =~= before);
                        }
                        match sent {
                            Ok(()) => Ok(()),
                            Err(session) => Err(session.into_stream()),
                        }
                    },
                    Err(stream) => Err(stream),
                }
            },
            _ => Err(stream),
        }
    }
}

/// Backpressure: a responder's step with the accepter sends an accept only
/// when that step reserved a slot, and a reject exactly when the queue of the
/// requested purpose had no slot left.
pub proof fn lemma_accept_only_with_slot<S>(
    accepter: AccepterModel<S>,
    handshake: HandshakeModel,
    event: EventModel,
)
    requires
        accepter.wf(),
        handshake.step(event).1 is ReserveSlot,
    ensures
        ({
            let typ = handshake.step(event).1->ReserveSlot_0;
            let (after, _, action) = accepter.advance(handshake, event);
            &&& accepter.queue(typ).can_reserve() ==> action == ActionModel::SendResult(
                V1ResultType::Accept,
            ) && after.queue(typ).reserved == accepter.queue(typ).reserved + 1
            &&& !accepter.queue(typ).can_reserve() ==> action == ActionModel::SendResult(
                V1ResultType::Reject,
            ) && after == accepter
        }),
{
}

/// Admission control: while every slot of a purpose is taken, by a session
/// that waits or by a reservation, a request for that purpose is answered
/// with a reject, and the accepter stays as it is.
pub proof fn lemma_full_queue_rejects<S>(
    accepter: AccepterModel<S>,
    handshake: HandshakeModel,
    event: EventModel,
)
    requires
        accepter.wf(),
        handshake.step(event).1 is ReserveSlot,
        accepter.queue(handshake.step(event).1->ReserveSlot_0).occupied() == accepter.queue(
            handshake.step(event).1->ReserveSlot_0,
        ).capacity,
    ensures
        accepter.advance(handshake, event).2 == ActionModel::SendResult(V1ResultType::Reject),
        accepter.advance(handshake, event).0 == accepter,
        accepter.advance(handshake, event).1.phase == Phase::AwaitResultSent(
            handshake.step(event).1->ReserveSlot_0,
            false,
        ),
{
}

/// Where a worker is in its loop.
#[derive(Clone, Copy, Debug, PartialEq, Eq, Structural)]
pub enum TaskPhase {
    /// Before the first step.
    Idle,
    /// The delay before the next connection runs.
    Sleeping,
    /// A connection is waited for.
    Accepting,
    /// The handshake of a connection runs.
    Serving,
    /// The worker has left its loop.
    Stopped,
}

/// What a worker's caller observed.
#[derive(Debug)]
pub enum TaskEvent {
    /// The worker was started.
    Started,
    /// The delay is over.
    Slept,
    /// A connection came in from this socket address.
    Accepted(String),
    /// No connection could be accepted.
    AcceptFailed,
    /// The handshake of the connection has ended, however it went.
    Served,
}

/// An event, with the address as a sequence.
pub enum TaskEventModel {
    Started,
    Slept,
    Accepted(Seq<char>),
    AcceptFailed,
    Served,
}

impl View for TaskEvent {
    type V = TaskEventModel;

    open spec fn view(&self) -> TaskEventModel {
        match self {
            TaskEvent::Started => TaskEventModel::Started,
            TaskEvent::Slept => TaskEventModel::Slept,
            TaskEvent::Accepted(socket) => TaskEventModel::Accepted(socket@),
            TaskEvent::AcceptFailed => TaskEventModel::AcceptFailed,
            TaskEvent::Served => TaskEventModel::Served,
        }
    }
}

/// What a worker's caller is to do next.
pub enum TaskAction {
    /// Wait this many seconds.
    Sleep(u64),
    /// Accept one connection.
    Accept,
    /// Run this handshake as the responder on the connection that came in.
    Serve(Handshake),
    /// Leave the loop.
    Stop,
}

/// An action, with the handshake as what it knows.
pub enum TaskActionModel {
    Sleep(u64),
    Accept,
    Serve(HandshakeModel),
    Stop,
}

impl View for TaskAction {
    type V = TaskActionModel;

    open spec fn view(&self) -> TaskActionModel {
        match self {
            TaskAction::Sleep(secs) => TaskActionModel::Sleep(*secs),
            TaskAction::Accept => TaskActionModel::Accept,
            TaskAction::Serve(handshake) => TaskActionModel::Serve(handshake@),
            TaskAction::Stop => TaskActionModel::Stop,
        }
    }
}

/// The head of a worker's loop: it stops if it was asked to, and else waits
/// before it accepts the next connection.
pub open spec fn loop_head(cancelled: bool) -> (TaskPhase, TaskActionModel) {
    if cancelled {
        (TaskPhase::Stopped, TaskActionModel::Stop)
    } else {
        (TaskPhase::Sleeping, TaskActionModel::Sleep(ACCEPT_DELAY_SECS))
    }
}

/// One step of a worker. After the delay it accepts a connection, unless it
/// was asked to stop. A connection that came in is served with a responder's
/// handshake that offers version 1. Whatever else is reported, and however
/// the last connection went, the worker is back at the head of its loop.
pub open spec fn task_step(phase: TaskPhase, event: TaskEventModel, cancelled: bool) -> (
    TaskPhase,
    TaskActionModel,
) {
    match (phase, event) {
        (TaskPhase::Stopped, _) => (TaskPhase::Stopped, TaskActionModel::Stop),
        (TaskPhase::Sleeping, TaskEventModel::Slept) => if cancelled {
            (TaskPhase::Stopped, TaskActionModel::Stop)
        } else {
            (TaskPhase::Accepting, TaskActionModel::Accept)
        },
        (TaskPhase::Accepting, TaskEventModel::Accepted(socket)) => (
            TaskPhase::Serving,
            TaskActionModel::Serve(
                HandshakeModel::initial(
                    HandshakeRole::Responder,
                    V1_BIT,
                    tcp_text(socket),
                ),
            ),
        ),
        _ => loop_head(cancelled),
    }
}

/// One worker of the accepter: a loop that waits, accepts a connection,
/// serves it and starts over, until it is asked to stop.
#[derive(Debug)]
pub struct AccepterTask {
    phase: TaskPhase,
}

impl View for AccepterTask {
    type V = TaskPhase;

    closed spec fn view(&self) -> TaskPhase {
        self.phase
    }
}

impl AccepterTask {
    /// A worker before its first step.
    pub fn new() -> (r: AccepterTask)
        ensures
            r@ == TaskPhase::Idle,
    {
        AccepterTask { phase: TaskPhase::Idle }
    }

    /// Where the worker is in its loop.
    pub fn phase(&self) -> (r: TaskPhase)
        ensures
            r == self@,
    {
        self.phase
    }

    /// Runs the worker one step: takes what the caller observed and says
    /// what to do next. `cancelled` says whether the accepter was asked to
    /// stop.
    pub fn run(&mut self, event: TaskEvent, cancelled: bool) -> (action: TaskAction)
        ensures
            (final(self)@, action@) == task_step(old(self)@, event@, cancelled),
    {
        match (self.phase, event) {
            (TaskPhase::Stopped, _) => TaskAction::Stop,
            (TaskPhase::Sleeping, TaskEvent::Slept) => {
                if cancelled {
                    self.phase = TaskPhase::Stopped;
                    TaskAction::Stop
                } else {
                    self.phase = TaskPhase::Accepting;
                    TaskAction::Accept
                }
            },
            (TaskPhase::Accepting, TaskEvent::Accepted(socket)) => {
                self.phase = TaskPhase::Serving;
                TaskAction::Serve(
                    Handshake::responder(SessionVersion::v1(), OmniAddress::tcp(socket.as_str())),
                )
            },
            _ => {
                if cancelled {
                    self.phase = TaskPhase::Stopped;
                    TaskAction::Stop
                } else {
                    self.phase = TaskPhase::Sleeping;
                    TaskAction::Sleep(ACCEPT_DELAY_SECS)
                }
            },
        }
    }
}

/// One bad connection never ends a worker: a worker that was not asked to
/// stop does not stop, whatever is reported to it.
pub proof fn lemma_worker_stops_only_when_asked(phase: TaskPhase, event: TaskEventModel)
    requires
        phase != TaskPhase::Stopped,
    ensures
        task_step(phase, event, false).0 != TaskPhase::Stopped,
        task_step(phase, event, false).1 !is Stop,
{
}

/// However a connection went, and whether one came at all, the worker goes
/// on with the delay before the next one.
pub proof fn lemma_worker_starts_over(event: TaskEventModel)
    requires
        event is Served || event is AcceptFailed,
    ensures
        task_step(TaskPhase::Serving, event, false) == (
            TaskPhase::Sleeping,
            TaskActionModel::Sleep(ACCEPT_DELAY_SECS),
        ),
        task_step(TaskPhase::Accepting, TaskEventModel::AcceptFailed, false) == (
            TaskPhase::Sleeping,
            TaskActionModel::Sleep(ACCEPT_DELAY_SECS),
        ),
{
}

/// A worker that was asked to stop accepts no further connection: at the
/// head of its loop and after its delay it stops, and it stays stopped.
pub proof fn lemma_worker_stops_when_asked(phase: TaskPhase, event: TaskEventModel)
    requires
        !(phase == TaskPhase::Accepting && event is Accepted),
    ensures
        task_step(phase, event, true) == (TaskPhase::Stopped, TaskActionModel::Stop),
        task_step(TaskPhase::Stopped, event, false) == (TaskPhase::Stopped, TaskActionModel::Stop),
{
}

} // verus!
