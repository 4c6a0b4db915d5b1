use vstd::prelude::*;
use crate::delivery::{is_notification_of, Message, PushError, ResponsePayload, NOTIFICATION_ID};
use crate::notification::Notification;
use crate::notifier::{
    delivered, index_of, overflowing_ids, receiving_ids, FanOut, ListenerModel, Notifier, NotifierError,
};
use crate::request::{delegation, error_response, is_call, reply_spec, Request, RequestPayload, Step};
use crate::scope::{Command, Scope, ScopeKind};
use crate::subscription::{apply_spec, empty_model, wants_spec, SubscriptionModel};

verus! {

/// Depth of each connection's delivery handle.
pub const DELIVERY_CAPACITY: usize = 128;

/// A live connection and the listener it was given.
#[derive(PartialEq, Eq, Structural, Clone, Copy, Debug)]
pub struct Registration {
    pub connection: u64,
    pub listener: u64,
}

#[derive(PartialEq, Eq, Structural, Clone, Copy, Debug)]
pub enum ServiceError {
    /// The connection is already registered.
    AlreadyRegistered(u64),
    /// The connection is not registered.
    UnknownConnection(u64),
    /// `finalize` was called while the notifier still runs.
    StillRunning,
    /// `finalize` was already called.
    AlreadyFinalized,
    /// The notifier refused the operation.
    Notifier(NotifierError),
}

pub open spec fn is_registered(rs: Seq<Registration>, connection: u64) -> bool {
    exists|i: int| 0 <= i < rs.len() && rs[i].connection == connection
}

/// The position of `connection` among the registrations.
pub open spec fn connection_index(rs: Seq<Registration>, connection: u64) -> int {
    choose|i: int| 0 <= i < rs.len() && rs[i].connection == connection
}

/// Subscription state after a command: a finality-conflict command applies to
/// the finality-conflict-resolved scope as well.
pub open spec fn combined_apply(m: SubscriptionModel, scope: Scope, command: Command) -> SubscriptionModel {
    if scope.spec_kind() == ScopeKind::FinalityConflict {
        apply_spec(apply_spec(m, scope, command), Scope::FinalityConflictResolved, command)
    } else {
        apply_spec(m, scope, command)
    }
}

/// The subscription state a request leaves behind.
pub open spec fn subscription_change(m: SubscriptionModel, payload: Option<RequestPayload>) -> SubscriptionModel {
    match payload {
        Some(RequestPayload::Notify { scope, command }) => combined_apply(m, scope, command),
        Some(RequestPayload::StopNotifying { scope }) => combined_apply(m, scope, Command::Stop),
        _ => m,
    }
}

/// The handler step that follows an attempt to queue a response.
pub open spec fn step_after(r: Result<(), PushError>) -> Step {
    match r {
        Ok(()) => Step::Replied,
        Err(PushError::Full(m)) => Step::Backpressure(m),
        Err(PushError::Closed(_)) => Step::Closed,
    }
}

fn step_of(r: Result<(), PushError>) -> (s: Step)
    ensures
        s == step_after(r),
{
    match r {
        Ok(()) => Step::Replied,
        Err(PushError::Full(m)) => Step::Backpressure(m),
        Err(PushError::Closed(_)) => Step::Closed,
    }
}

/// Combined scope: a finality-conflict subscribe leaves both the
/// finality-conflict and the finality-conflict-resolved scopes held, so the
/// listener wants events of either; the matching unsubscribe leaves neither held.
pub proof fn lemma_finality_conflict_combined(m: SubscriptionModel, command: Command, n: Notification)
    requires
        n.kind == ScopeKind::FinalityConflict || n.kind == ScopeKind::FinalityConflictResolved,
    ensures
        ({
            let r = combined_apply(m, Scope::FinalityConflict, command);
            &&& r.active.contains(ScopeKind::FinalityConflict) == (command == Command::Start)
            &&& r.active.contains(ScopeKind::FinalityConflictResolved) == (command == Command::Start)
            &&& wants_spec(r, n) == (command == Command::Start)
        }),
{
}

/// Repeating a subscription command, finality-conflict pairs included, leaves
/// the same subscriptions as issuing it once.
pub proof fn lemma_combined_idempotent(m: SubscriptionModel, scope: Scope, command: Command)
    ensures
        combined_apply(combined_apply(m, scope, command), scope, command) == combined_apply(m, scope, command),
{
    let once = combined_apply(m, scope, command);
    let twice = combined_apply(once, scope, command);
    assert(twice.active =~= once.active);
}

/// Correlation: the response the gateway gives to a request carries the
/// request's id, a business call is delegated under that id, and pushed
/// notifications carry the notification id.
pub proof fn lemma_correlation(request: Request, m: Message, n: Notification)
    ensures
        reply_spec(request).id == request.id,
        is_call(request) ==> (delegation(request) matches Step::Delegate { id, .. } && id == request.id),
        is_notification_of(m, n) ==> m.id == NOTIFICATION_ID,
{
}

/// The gateway: the connection registry, the notifier its connections listen
/// on, and the lifecycle of both.
#[derive(Debug)]
pub struct GrpcService {
    core_listener_id: u64,
    registrations: Vec<Registration>,
    notifier: Notifier,
    finalized: bool,
}

impl GrpcService {
    pub closed spec fn spec_registrations(&self) -> Seq<Registration> {
        self.registrations@
    }

    pub closed spec fn spec_notifier(&self) -> Notifier {
        self.notifier
    }

    pub closed spec fn spec_core_listener_id(&self) -> u64 {
        self.core_listener_id
    }

    pub closed spec fn spec_finalized(&self) -> bool {
        self.finalized
    }

    /// The listener models, one per registration and in the same order.
    pub open spec fn listeners(&self) -> Seq<ListenerModel> {
        self.spec_notifier()@
    }

    pub open spec fn wf(&self) -> bool {
        let rs = self.spec_registrations();
        &&& self.spec_notifier().wf()
        &&& rs.len() == self.listeners().len()
        &&& forall|i: int| 0 <= i < rs.len() ==> #[trigger] rs[i].listener == self.listeners()[i].id
        &&& forall|i: int, j: int|
            0 <= i < rs.len() && 0 <= j < rs.len() && i != j ==> rs[i].connection != rs[j].connection
    }

    /// Whether `connection` is registered.
    pub open spec fn has_connection(&self, connection: u64) -> bool {
        is_registered(self.spec_registrations(), connection)
    }

    /// The position of `connection`, in the registrations and in the listeners.
    pub open spec fn slot(&self, connection: u64) -> int {
        connection_index(self.spec_registrations(), connection)
    }

    /// A gateway registered with the core service's event bus under
    /// `core_listener_id`, with no connection and its notifier not started.
    pub fn new(core_listener_id: u64) -> (r: GrpcService)
        ensures
            r.wf(),
            r.spec_registrations() == Seq::<Registration>::empty(),
            r.listeners() == Seq::<ListenerModel>::empty(),
            r.spec_notifier().spec_next_id() == 0,
            r.spec_notifier().spec_capacity() == DELIVERY_CAPACITY,
            !r.spec_notifier().spec_running(),
            r.spec_core_listener_id() == core_listener_id,
            !r.spec_finalized(),
    {
        let r = GrpcService {
            core_listener_id,
            registrations: Vec::new(),
            notifier: Notifier::new(DELIVERY_CAPACITY),
            finalized: false,
        };
        proof {
            assert(r.spec_registrations() =~= Seq::<Registration>::empty());
        }
        r
    }

    pub fn notifier(&self) -> (r: &Notifier)
        ensures
            *r == self.spec_notifier(),
    {
        &self.notifier
    }

    pub fn core_listener_id(&self) -> (r: u64)
        ensures
            r == self.spec_core_listener_id(),
    {
        self.core_listener_id
    }

    /// Starts the notifier's fan-out stage.
    pub fn start(&mut self)
        requires
            old(self).wf(),
        ensures
            final(self).wf(),
            final(self).spec_registrations() == old(self).spec_registrations(),
            final(self).listeners() == old(self).listeners(),
            final(self).spec_notifier().spec_running(),
            final(self).spec_notifier().spec_next_id() == old(self).spec_notifier().spec_next_id(),
            final(self).spec_notifier().spec_capacity() == old(self).spec_notifier().spec_capacity(),
            final(self).spec_core_listener_id() == old(self).spec_core_listener_id(),
            final(self).spec_finalized() == old(self).spec_finalized(),
    {
        self.notifier.start();
    }

    /// Stops the notifier's fan-out stage, passing on its error when it was not running.
    pub fn stop(&mut self) -> (r: Result<(), ServiceError>)
        requires
            old(self).wf(),
        ensures
            final(self).wf(),
            final(self).spec_registrations() == old(self).spec_registrations(),
            final(self).listeners() == old(self).listeners(),
            !final(self).spec_notifier().spec_running(),
            final(self).spec_notifier().spec_next_id() == old(self).spec_notifier().spec_next_id(),
            final(self).spec_notifier().spec_capacity() == old(self).spec_notifier().spec_capacity(),
            final(self).spec_core_listener_id() == old(self).spec_core_listener_id(),
            final(self).spec_finalized() == old(self).spec_finalized(),
            old(self).spec_notifier().spec_running() ==> r is Ok,
            !old(self).spec_notifier().spec_running() ==> r == Err::<(), ServiceError>(
                ServiceError::Notifier(NotifierError::AlreadyStopped),
            ),
    {
        match self.notifier.stop() {
            Ok(()) => Ok(()),
            Err(e) => Err(ServiceError::Notifier(e)),
        }
    }

    /// Marks the gateway finished and returns the id under which it must be
    /// unregistered from the core service's event bus. Fails while the notifier
    /// runs and on a second call.
    pub fn finalize(&mut self) -> (r: Result<u64, ServiceError>)
        requires
            old(self).wf(),
        ensures
            final(self).wf(),
            final(self).spec_registrations() == old(self).spec_registrations(),
            final(self).spec_notifier() == old(self).spec_notifier(),
            final(self).spec_core_listener_id() == old(self).spec_core_listener_id(),
            old(self).spec_finalized() ==> r == Err::<u64, ServiceError>(ServiceError::AlreadyFinalized)
                && final(self).spec_finalized(),
            !old(self).spec_finalized() && old(self).spec_notifier().spec_running() ==> r == Err::<
                u64,
                ServiceError,
            >(ServiceError::StillRunning) && !final(self).spec_finalized(),
            !old(self).spec_finalized() && !old(self).spec_notifier().spec_running() ==> r == Ok::<
                u64,
                ServiceError,
            >(old(self).spec_core_listener_id()) && final(self).spec_finalized(),
    {
        if self.finalized {
            return Err(ServiceError::AlreadyFinalized);
        }
        if self.notifier.is_running() {
            return Err(ServiceError::StillRunning);
        }
        self.finalized = true;
        Ok(self.core_listener_id)
    }

    /// Finds the position of `connection`.
    fn find(&self, connection: u64) -> (r: Option<usize>)
        requires
            self.wf(),
        ensures
            r is None <==> !self.has_connection(connection),
            r matches Some(i) ==> i < self.spec_registrations().len() && i == self.slot(connection)
                && self.spec_registrations()[i as int].connection == connection,
    {
        let mut i: usize = 0;
        while i < self.registrations.len()
            invariant
                self.wf(),
                i <= self.registrations@.len(),
                forall|j: int| 0 <= j < i ==> self.registrations@[j].connection != connection,
            decreases self.registrations@.len() - i,
        {
            if self.registrations[i].connection == connection {
                proof {
                    let k = self.slot(connection);
                    assert(self.spec_registrations()[i as int].connection == connection);
                    assert(0 <= k < self.spec_registrations().len() && self.spec_registrations()[k].connection
                        == connection);
                }
                return Some(i);
            }
            i = i + 1;
        }
        None
    }

    /// The listener position that goes with a registration position.
    proof fn lemma_slot_listener(&self, i: int)
        requires
            self.wf(),
            0 <= i < self.spec_registrations().len(),
        ensures
            index_of(self.listeners(), self.spec_registrations()[i].listener) == i,
            self.spec_notifier().has_listener(self.spec_registrations()[i].listener),
    {
        let id = self.spec_registrations()[i].listener;
        assert(self.listeners()[i].id == id);
        let k = index_of(self.listeners(), id);
        assert(0 <= k < self.listeners().len() && self.listeners()[k].id == id);
    }

    /// The listener id of `connection`, if it is registered.
    pub fn listener_of(&self, connection: u64) -> (r: Option<u64>)
        requires
            self.wf(),
        ensures
            !self.has_connection(connection) ==> r is None,
            self.has_connection(connection) ==> r == Some(
                self.spec_registrations()[self.slot(connection)].listener,
            ),
    {
        match self.find(connection) {
            None => None,
            Some(i) => Some(self.registrations[i].listener),
        }
    }
    /// Registers `connection`: a fresh listener with no subscription and an
    /// empty delivery handle is created for it, and its id returned.
    pub fn register_connection(&mut self, connection: u64) -> (r: Result<u64, ServiceError>)
        requires
            old(self).wf(),
        ensures
            final(self).wf(),
            final(self).spec_core_listener_id() == old(self).spec_core_listener_id(),
            final(self).spec_finalized() == old(self).spec_finalized(),
            final(self).spec_notifier().spec_running() == old(self).spec_notifier().spec_running(),
            final(self).spec_notifier().spec_capacity() == old(self).spec_notifier().spec_capacity(),
            old(self).has_connection(connection) ==> r == Err::<u64, ServiceError>(
                ServiceError::AlreadyRegistered(connection),
            ),
            !old(self).has_connection(connection) && old(self).spec_notifier().spec_next_id() == u64::MAX
                ==> r == Err::<u64, ServiceError>(ServiceError::Notifier(NotifierError::ListenerIdsExhausted)),
            r is Err ==> final(self).spec_registrations() == old(self).spec_registrations() && final(self).spec_notifier()@ == old(self).spec_notifier()@ && final(self).spec_notifier().spec_next_id()
                == old(self).spec_notifier().spec_next_id(),
            !old(self).has_connection(connection) && old(self).spec_notifier().spec_next_id() < u64::MAX
                ==> {
                let id = old(self).spec_notifier().spec_next_id();
                &&& r == Ok::<u64, ServiceError>(id)
                &&& final(self).spec_registrations() == old(self).spec_registrations().push(
                    Registration { connection, listener: id },
                )
                &&& final(self).listeners() == old(self).listeners().push(
                    ListenerModel {
                        id,
                        subscriptions: empty_model(),
                        queue: Seq::empty(),
                        capacity: old(self).spec_notifier().spec_capacity(),
                    },
                )
                &&& final(self).spec_notifier().spec_next_id() == id + 1
            },
    {
        if self.find(connection).is_some() {
            return Err(ServiceError::AlreadyRegistered(connection));
        }
        match self.notifier.register() {
            Err(e) => Err(ServiceError::Notifier(e)),
            Ok(id) => {
                self.registrations.push(Registration { connection, listener: id });
                proof {
                    let rs = self.spec_registrations();
                    let n = old(self).spec_registrations().len();
                    assert forall|i: int| 0 <= i < rs.len() implies #[trigger] rs[i].listener
                        == self.listeners()[i].id by {
                        if i < n {
                            assert(rs[i] == old(self).spec_registrations()[i]);
                            assert(self.listeners()[i] == old(self).listeners()[i]);
                        }
                    }
                    assert forall|i: int, j: int|
                        0 <= i < rs.len() && 0 <= j < rs.len() && i != j implies rs[i].connection
                        != rs[j].connection by {
                        if i < n && j < n {
                            assert(rs[i] == old(self).spec_registrations()[i]);
                            assert(rs[j] == old(self).spec_registrations()[j]);
                        } else if i < n {
                            assert(rs[i] == old(self).spec_registrations()[i]);
                        } else if j < n {
                            assert(rs[j] == old(self).spec_registrations()[j]);
                        }
                    }
                }
                Ok(id)
            },
        }
    }

    /// Unregisters `connection`: its registration, subscriptions and delivery
    /// handle are dropped. A no-op for a connection that is not registered.
    pub fn unregister_connection(&mut self, connection: u64) -> (r: bool)
        requires
            old(self).wf(),
        ensures
            final(self).wf(),
            r == old(self).has_connection(connection),
            !final(self).has_connection(connection),
            r ==> final(self).spec_registrations() == old(self).spec_registrations().remove(
                old(self).slot(connection),
            ) && final(self).listeners() == old(self).listeners().remove(old(self).slot(connection)),
            !r ==> final(self).spec_registrations() == old(self).spec_registrations() && final(self).listeners() == old(self).listeners(),
            r ==> !final(self).spec_notifier().has_listener(
                old(self).spec_registrations()[old(self).slot(connection)].listener,
            ),
            final(self).spec_notifier().spec_next_id() == old(self).spec_notifier().spec_next_id(),
            final(self).spec_notifier().spec_running() == old(self).spec_notifier().spec_running(),
            final(self).spec_notifier().spec_capacity() == old(self).spec_notifier().spec_capacity(),
            final(self).spec_core_listener_id() == old(self).spec_core_listener_id(),
            final(self).spec_finalized() == old(self).spec_finalized(),
    {
        match self.find(connection) {
            None => false,
            Some(i) => {
                let reg = self.registrations.remove(i);
                proof {
                    old(self).lemma_slot_listener(i as int);
                }
                let _ = self.notifier.unregister(reg.listener);
                proof {
                    let rs = self.spec_registrations();
                    let ors = old(self).spec_registrations();
                    assert(rs =~= ors.remove(i as int));
                    assert forall|j: int| 0 <= j < rs.len() implies #[trigger] rs[j].listener
                        == self.listeners()[j].id by {
                        if j < i {
                            assert(rs[j] == ors[j]);
                            assert(self.listeners()[j] == old(self).listeners()[j]);
                        } else {
                            assert(rs[j] == ors[j + 1]);
                            assert(self.listeners()[j] == old(self).listeners()[j + 1]);
                        }
                    }
                    assert forall|a: int, b: int|
                        0 <= a < rs.len() && 0 <= b < rs.len() && a != b implies rs[a].connection
                        != rs[b].connection by {
                        let a1 = if a < i { a } else { a + 1 };
                        let b1 = if b < i { b } else { b + 1 };
                        assert(rs[a] == ors[a1]);
                        assert(rs[b] == ors[b1]);
                    }
                    assert forall|j: int| 0 <= j < rs.len() implies rs[j].connection != connection by {
                        let j1 = if j < i { j } else { j + 1 };
                        assert(rs[j] == ors[j1]);
                    }
                }
                true
            },
        }
    }
    /// A gateway whose listeners keep their ids stays well formed.
    proof fn lemma_same_ids(a: &GrpcService, b: &GrpcService)
        requires
            a.wf(),
            b.spec_notifier().wf(),
            b.spec_registrations() == a.spec_registrations(),
            b.listeners().len() == a.listeners().len(),
            forall|i: int| 0 <= i < b.listeners().len() ==> (#[trigger] b.listeners()[i]).id == a.listeners()[i].id,
        ensures
            b.wf(),
    {
        assert forall|i: int| 0 <= i < b.spec_registrations().len() implies #[trigger] b.spec_registrations()[i].listener
            == b.listeners()[i].id by {
            assert(a.spec_registrations()[i].listener == a.listeners()[i].id);
        }
    }

    /// Applies a subscribe or unsubscribe command for `connection`'s listener.
    /// A finality-conflict command applies to the finality-conflict-resolved
    /// scope too; both act on one registered listener, so either both take
    /// effect or, for an unknown connection, neither does.
    pub fn subscribe(&mut self, connection: u64, scope: &Scope, command: Command) -> (r: Result<(), ServiceError>)
        requires
            old(self).wf(),
        ensures
            final(self).wf(),
            final(self).spec_registrations() == old(self).spec_registrations(),
            final(self).spec_notifier().spec_next_id() == old(self).spec_notifier().spec_next_id(),
            final(self).spec_notifier().spec_running() == old(self).spec_notifier().spec_running(),
            final(self).spec_notifier().spec_capacity() == old(self).spec_notifier().spec_capacity(),
            final(self).spec_core_listener_id() == old(self).spec_core_listener_id(),
            final(self).spec_finalized() == old(self).spec_finalized(),
            !old(self).has_connection(connection) ==> r == Err::<(), ServiceError>(
                ServiceError::UnknownConnection(connection),
            ) && final(self).listeners() == old(self).listeners(),
            old(self).has_connection(connection) ==> r is Ok && final(self).listeners() == old(self).listeners().update(
                old(self).slot(connection),
                ListenerModel {
                    subscriptions: combined_apply(
                        old(self).listeners()[old(self).slot(connection)].subscriptions,
                        *scope,
                        command,
                    ),
                    ..old(self).listeners()[old(self).slot(connection)]
                },
            ),
    {
        match self.find(connection) {
            None => Err(ServiceError::UnknownConnection(connection)),
            Some(i) => {
                let l = self.registrations[i].listener;
                proof {
                    self.lemma_slot_listener(i as int);
                }
                let _ = self.notifier.execute_subscribe_command(l, scope, command);
                proof {
                    Self::lemma_same_ids(old(self), self);
                    self.lemma_slot_listener(i as int);
                }
                if scope.kind() == ScopeKind::FinalityConflict {
                    let resolved = Scope::FinalityConflictResolved;
                    let _ = self.notifier.execute_subscribe_command(l, &resolved, command);
                    proof {
                        Self::lemma_same_ids(old(self), self);
                    }
                }
                proof {
                    let i = i as int;
                    let o = old(self).listeners()[i];
                    let want = old(self).listeners().update(
                        i,
                        ListenerModel { subscriptions: combined_apply(o.subscriptions, *scope, command), ..o },
                    );
                    assert(self.listeners() =~= want);
                }
                Ok(())
            },
        }
    }

    /// Queues `m` on `connection`'s delivery handle.
    pub fn respond(&mut self, connection: u64, m: Message) -> (r: Result<(), PushError>)
        requires
            old(self).wf(),
        ensures
            final(self).wf(),
            final(self).spec_registrations() == old(self).spec_registrations(),
            final(self).spec_notifier().spec_next_id() == old(self).spec_notifier().spec_next_id(),
            final(self).spec_notifier().spec_running() == old(self).spec_notifier().spec_running(),
            final(self).spec_notifier().spec_capacity() == old(self).spec_notifier().spec_capacity(),
            final(self).spec_core_listener_id() == old(self).spec_core_listener_id(),
            final(self).spec_finalized() == old(self).spec_finalized(),
            !old(self).has_connection(connection) ==> r == Err::<(), PushError>(PushError::Closed(m))
                && final(self).listeners() == old(self).listeners(),
            old(self).has_connection(connection) && old(self).listeners()[old(self).slot(connection)].queue.len()
                >= old(self).listeners()[old(self).slot(connection)].capacity ==> r == Err::<(), PushError>(
                PushError::Full(m),
            ) && final(self).listeners() == old(self).listeners(),
            old(self).has_connection(connection) && old(self).listeners()[old(self).slot(connection)].queue.len()
                < old(self).listeners()[old(self).slot(connection)].capacity ==> r is Ok && final(self).listeners()
                == old(self).listeners().update(
                old(self).slot(connection),
                ListenerModel {
                    queue: old(self).listeners()[old(self).slot(connection)].queue.push(m),
                    ..old(self).listeners()[old(self).slot(connection)]
                },
            ),
    {
        match self.find(connection) {
            None => Err(PushError::Closed(m)),
            Some(i) => {
                let l = self.registrations[i].listener;
                proof {
                    self.lemma_slot_listener(i as int);
                }
                let r = self.notifier.push_message(l, m);
                proof {
                    Self::lemma_same_ids(old(self), self);
                }
                r
            },
        }
    }

    /// Takes every message queued for `connection`, oldest first.
    pub fn take_outbound(&mut self, connection: u64) -> (r: Option<Vec<Message>>)
        requires
            old(self).wf(),
        ensures
            final(self).wf(),
            final(self).spec_registrations() == old(self).spec_registrations(),
            final(self).spec_notifier().spec_next_id() == old(self).spec_notifier().spec_next_id(),
            final(self).spec_notifier().spec_running() == old(self).spec_notifier().spec_running(),
            final(self).spec_notifier().spec_capacity() == old(self).spec_notifier().spec_capacity(),
            final(self).spec_core_listener_id() == old(self).spec_core_listener_id(),
            final(self).spec_finalized() == old(self).spec_finalized(),
            !old(self).has_connection(connection) ==> r is None && final(self).listeners() == old(self).listeners(),
            old(self).has_connection(connection) ==> r is Some && r.unwrap()@ == old(self).listeners()[old(self).slot(connection)].queue && final(self).listeners() == old(self).listeners().update(
                old(self).slot(connection),
                ListenerModel { queue: Seq::empty(), ..old(self).listeners()[old(self).slot(connection)] },
            ),
    {
        match self.find(connection) {
            None => None,
            Some(i) => {
                let l = self.registrations[i].listener;
                proof {
                    self.lemma_slot_listener(i as int);
                }
                let r = self.notifier.take_messages(l);
                proof {
                    Self::lemma_same_ids(old(self), self);
                }
                r
            },
        }
    }

    /// Fans notification `n` out to the connections subscribed to it.
    pub fn publish(&mut self, n: &Notification) -> (r: FanOut)
        requires
            old(self).wf(),
        ensures
            final(self).wf(),
            final(self).spec_registrations() == old(self).spec_registrations(),
            final(self).spec_notifier().spec_next_id() == old(self).spec_notifier().spec_next_id(),
            final(self).spec_notifier().spec_running() == old(self).spec_notifier().spec_running(),
            final(self).spec_notifier().spec_capacity() == old(self).spec_notifier().spec_capacity(),
            final(self).spec_core_listener_id() == old(self).spec_core_listener_id(),
            final(self).spec_finalized() == old(self).spec_finalized(),
            !old(self).spec_notifier().spec_running() ==> final(self).listeners() == old(self).listeners()
                && r.delivered@ == Seq::<u64>::empty() && r.dropped@ == Seq::<u64>::empty(),
            old(self).spec_notifier().spec_running() ==> {
                &&& final(self).listeners().len() == old(self).listeners().len()
                &&& forall|i: int|
                    0 <= i < old(self).listeners().len() ==> delivered(
                        old(self).listeners()[i],
                        #[trigger] final(self).listeners()[i],
                        *n,
                    )
                &&& r.delivered@ == receiving_ids(old(self).listeners(), *n)
                &&& r.dropped@ == overflowing_ids(old(self).listeners(), *n)
            },
    {
        let r = self.notifier.broadcast(n);
        proof {
            if self.spec_notifier().spec_running() {
                assert forall|i: int| 0 <= i < self.listeners().len() implies (#[trigger] self.listeners()[i]).id
                    == old(self).listeners()[i].id by {
                    assert(delivered(old(self).listeners()[i], self.listeners()[i], *n));
                }
            }
            Self::lemma_same_ids(old(self), self);
        }
        r
    }

    /// One step of `connection`'s request handler: a business call is handed
    /// back for delegation; any other request is answered here, after its
    /// subscription command, if any, has been applied. The response carries
    /// the request's id.
    pub fn handle_request(&mut self, connection: u64, request: Request) -> (r: Step)
        requires
            old(self).wf(),
        ensures
            final(self).wf(),
            final(self).spec_registrations() == old(self).spec_registrations(),
            final(self).spec_notifier().spec_next_id() == old(self).spec_notifier().spec_next_id(),
            final(self).spec_notifier().spec_running() == old(self).spec_notifier().spec_running(),
            final(self).spec_notifier().spec_capacity() == old(self).spec_notifier().spec_capacity(),
            final(self).spec_core_listener_id() == old(self).spec_core_listener_id(),
            final(self).spec_finalized() == old(self).spec_finalized(),
            !old(self).has_connection(connection) ==> r == Step::Closed && final(self).listeners() == old(self).listeners(),
            old(self).has_connection(connection) && is_call(request) ==> r == delegation(request) && final(self).listeners() == old(self).listeners(),
            old(self).has_connection(connection) && !is_call(request) ==> {
                let i = old(self).slot(connection);
                let o = old(self).listeners()[i];
                let subscriptions = subscription_change(o.subscriptions, request.payload);
                &&& o.queue.len() < o.capacity ==> r == Step::Replied && final(self).listeners() == old(self).listeners().update(
                    i,
                    ListenerModel { subscriptions, queue: o.queue.push(reply_spec(request)), ..o },
                )
                &&& o.queue.len() >= o.capacity ==> r == Step::Backpressure(reply_spec(request)) && final(self).listeners() == old(self).listeners().update(i, ListenerModel { subscriptions, ..o })
            },
    {
        if self.find(connection).is_none() {
            return Step::Closed;
        }
        let ghost before = request;
        let id = request.id;
        let payload = match request.payload {
            None => ResponsePayload::MissingPayload,
            Some(RequestPayload::Call { method, body }) => {
                return Step::Delegate { id, method, body };
            },
            Some(RequestPayload::Invalid { kind, reason }) => error_response(kind, reason),
            Some(RequestPayload::Notify { scope, command }) => {
                let _ = self.subscribe(connection, &scope, command);
                ResponsePayload::Notify { kind: scope.kind(), result: Ok(()) }
            },
            Some(RequestPayload::StopNotifying { scope }) => {
                let _ = self.subscribe(connection, &scope, Command::Stop);
                ResponsePayload::StopNotifying { kind: scope.kind(), result: Ok(()) }
            },
        };
        let m = Message { id, payload };
        proof {
            assert(m == reply_spec(before));
            let i = old(self).slot(connection);
            assert(self.slot(connection) == i);
        }
        let r = self.respond(connection, m);
        proof {
            let i = old(self).slot(connection);
            let o = old(self).listeners()[i];
            let subscriptions = subscription_change(o.subscriptions, before.payload);
            assert(self.listeners() =~= old(self).listeners().update(
                i,
                ListenerModel { subscriptions, queue: self.listeners()[i].queue, ..o },
            ));
        }
        step_of(r)
    }

    /// Queues the core service's answer to business call `method` of request
    /// `id` on `connection`'s delivery handle.
    pub fn complete_call(&mut self, connection: u64, id: u64, method: u16, result: Result<Vec<u8>, String>) -> (r:
        Step)
        requires
            old(self).wf(),
        ensures
            final(self).wf(),
            final(self).spec_registrations() == old(self).spec_registrations(),
            final(self).spec_notifier().spec_next_id() == old(self).spec_notifier().spec_next_id(),
            final(self).spec_notifier().spec_running() == old(self).spec_notifier().spec_running(),
            final(self).spec_notifier().spec_capacity() == old(self).spec_notifier().spec_capacity(),
            final(self).spec_core_listener_id() == old(self).spec_core_listener_id(),
            final(self).spec_finalized() == old(self).spec_finalized(),
            ({
                let m = Message { id, payload: ResponsePayload::Call { method, result } };
                &&& !old(self).has_connection(connection) ==> r == Step::Closed && final(self).listeners() == old(self).listeners()
                &&& old(self).has_connection(connection) && old(self).listeners()[old(self).slot(
                    connection,
                )].queue.len() < old(self).listeners()[old(self).slot(connection)].capacity ==> r
                    == Step::Replied && final(self).listeners() == old(self).listeners().update(
                    old(self).slot(connection),
                    ListenerModel {
                        queue: old(self).listeners()[old(self).slot(connection)].queue.push(m),
                        ..old(self).listeners()[old(self).slot(connection)]
                    },
                )
                &&& old(self).has_connection(connection) && old(self).listeners()[old(self).slot(
                    connection,
                )].queue.len() >= old(self).listeners()[old(self).slot(connection)].capacity ==> r
                    == Step::Backpressure(m) && final(self).listeners() == old(self).listeners()
            }),
    {
        let m = Message { id, payload: ResponsePayload::Call { method, result } };
        let r = self.respond(connection, m);
        step_of(r)
    }
}

} // verus!
