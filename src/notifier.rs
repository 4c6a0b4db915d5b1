use vstd::prelude::*;
use crate::delivery::{is_notification_of, notification_message, DeliveryHandle, Message, PushError};
use crate::notification::Notification;
use crate::scope::{Command, Scope, ScopeKind};
use crate::subscription::{apply_spec, empty_model, model_wf, wants_spec, SubscriptionModel, Subscriptions};

verus! {

/// What the notifier holds for one listener.
pub struct ListenerModel {
    pub id: u64,
    pub subscriptions: SubscriptionModel,
    pub queue: Seq<Message>,
    pub capacity: nat,
}

/// A registered listener: its subscriptions and its delivery handle.
#[derive(Debug)]
pub struct Listener {
    id: u64,
    subscriptions: Subscriptions,
    handle: DeliveryHandle,
}

impl Listener {
    pub closed spec fn view(&self) -> ListenerModel {
        ListenerModel {
            id: self.id,
            subscriptions: self.subscriptions@,
            queue: self.handle.queue(),
            capacity: self.handle.spec_capacity(),
        }
    }

    pub closed spec fn wf(&self) -> bool {
        self.subscriptions.wf() && self.handle.wf()
    }

    pub fn id(&self) -> (r: u64)
        ensures
            r == self@.id,
    {
        self.id
    }

    pub fn subscriptions(&self) -> (r: &Subscriptions)
        ensures
            r@ == self@.subscriptions,
    {
        &self.subscriptions
    }

    /// The number of messages waiting on the delivery handle.
    pub fn queued(&self) -> (r: usize)
        ensures
            r == self@.queue.len(),
    {
        self.handle.len()
    }
}

/// Whether listener `l` gets notification `n` in a broadcast: it wants `n` and
/// its queue has room.
pub open spec fn receives(l: ListenerModel, n: Notification) -> bool {
    wants_spec(l.subscriptions, n) && l.queue.len() < l.capacity
}

/// Whether listener `l` wants `n` but its queue is full.
pub open spec fn overflows(l: ListenerModel, n: Notification) -> bool {
    wants_spec(l.subscriptions, n) && l.queue.len() >= l.capacity
}

/// How one listener changes in a broadcast of `n`: it gains the pushed form of `n`
/// at the end of its queue if it receives `n`, and is otherwise unchanged.
pub open spec fn delivered(before: ListenerModel, after: ListenerModel, n: Notification) -> bool {
    &&& after.id == before.id
    &&& after.subscriptions == before.subscriptions
    &&& after.capacity == before.capacity
    &&& if receives(before, n) {
        &&& after.queue.len() == before.queue.len() + 1
        &&& after.queue.drop_last() == before.queue
        &&& is_notification_of(after.queue.last(), n)
    } else {
        after.queue == before.queue
    }
}

/// The ids of the listeners in `ls` that receive `n`, in order.
pub open spec fn receiving_ids(ls: Seq<ListenerModel>, n: Notification) -> Seq<u64>
    decreases ls.len(),
{
    if ls.len() == 0 {
        Seq::empty()
    } else {
        let rest = receiving_ids(ls.drop_last(), n);
        if receives(ls.last(), n) {
            rest.push(ls.last().id)
        } else {
            rest
        }
    }
}

/// The ids of the listeners in `ls` that want `n` but are full, in order.
pub open spec fn overflowing_ids(ls: Seq<ListenerModel>, n: Notification) -> Seq<u64>
    decreases ls.len(),
{
    if ls.len() == 0 {
        Seq::empty()
    } else {
        let rest = overflowing_ids(ls.drop_last(), n);
        if overflows(ls.last(), n) {
            rest.push(ls.last().id)
        } else {
            rest
        }
    }
}

/// The number of listeners in `ls` that hold scope `kind`.
pub open spec fn subscribed_count(ls: Seq<ListenerModel>, kind: ScopeKind) -> nat
    decreases ls.len(),
{
    if ls.len() == 0 {
        0
    } else {
        subscribed_count(ls.drop_last(), kind) + if ls.last().subscriptions.active.contains(kind) {
            1nat
        } else {
            0nat
        }
    }
}

pub open spec fn has_id(ls: Seq<ListenerModel>, id: u64) -> bool {
    exists|i: int| 0 <= i < ls.len() && ls[i].id == id
}

/// The position of listener `id` in `ls`.
pub open spec fn index_of(ls: Seq<ListenerModel>, id: u64) -> int {
    choose|i: int| 0 <= i < ls.len() && ls[i].id == id
}

pub open spec fn ids_unique(ls: Seq<ListenerModel>) -> bool {
    forall|i: int, j: int| 0 <= i < ls.len() && 0 <= j < ls.len() && i != j ==> ls[i].id != ls[j].id
}

/// Whether some listener of `ls` with id `id` receives `n`.
pub open spec fn received_by(ls: Seq<ListenerModel>, n: Notification, id: u64) -> bool {
    exists|i: int| 0 <= i < ls.len() && ls[i].id == id && receives(ls[i], n)
}

/// Whether some listener of `ls` with id `id` wants `n`.
pub open spec fn wanted_by(ls: Seq<ListenerModel>, n: Notification, id: u64) -> bool {
    exists|i: int| 0 <= i < ls.len() && ls[i].id == id && wants_spec(ls[i].subscriptions, n)
}

/// Every id in `receiving_ids(ls, n)` belongs to a listener of `ls` that receives `n`.
pub proof fn lemma_receiving_ids_receive(ls: Seq<ListenerModel>, n: Notification)
    ensures
        forall|k: int| 0 <= k < receiving_ids(ls, n).len() ==> received_by(ls, n, #[trigger] receiving_ids(ls, n)[k]),
    decreases ls.len(),
{
    if ls.len() > 0 {
        let init = ls.drop_last();
        lemma_receiving_ids_receive(init, n);
        assert forall|k: int| 0 <= k < receiving_ids(ls, n).len() implies received_by(
            ls,
            n,
            #[trigger] receiving_ids(ls, n)[k],
        ) by {
            if k < receiving_ids(init, n).len() {
                assert(receiving_ids(ls, n)[k] == receiving_ids(init, n)[k]);
                assert(received_by(init, n, receiving_ids(init, n)[k]));
                let i = choose|i: int|
                    0 <= i < init.len() && init[i].id == receiving_ids(init, n)[k] && receives(init[i], n);
                assert(ls[i] == init[i]);
            } else {
                assert(ls[ls.len() - 1] == ls.last());
            }
        }
    }
}

/// A listener of `ls` that receives `n` is named in `receiving_ids(ls, n)`.
pub proof fn lemma_receiver_named(ls: Seq<ListenerModel>, n: Notification, i: int)
    requires
        0 <= i < ls.len(),
        receives(ls[i], n),
    ensures
        receiving_ids(ls, n).contains(ls[i].id),
    decreases ls.len(),
{
    let init = ls.drop_last();
    if i == ls.len() - 1 {
        assert(receiving_ids(ls, n).last() == ls[i].id);
    } else {
        assert(init[i] == ls[i]);
        lemma_receiver_named(init, n, i);
        let k = choose|k: int| 0 <= k < receiving_ids(init, n).len() && receiving_ids(init, n)[k] == ls[i].id;
        if receives(ls.last(), n) {
            assert(receiving_ids(ls, n)[k] == ls[i].id);
        }
    }
}

/// Isolation: a broadcast of `n` changes the queue only of listeners that want
/// `n` (hold its scope and, for UTXOs-changed, one of its addresses), and every
/// listener it names as delivered wants `n`.
pub proof fn lemma_isolation(before: Seq<ListenerModel>, after: Seq<ListenerModel>, n: Notification)
    requires
        after.len() == before.len(),
        forall|i: int| 0 <= i < before.len() ==> delivered(before[i], #[trigger] after[i], n),
    ensures
        forall|i: int|
            0 <= i < before.len() && (#[trigger] after[i]).queue != before[i].queue ==> wants_spec(
                before[i].subscriptions,
                n,
            ),
        forall|k: int| 0 <= k < receiving_ids(before, n).len() ==> wanted_by(before, n, #[trigger] receiving_ids(before, n)[k]),
{
    lemma_receiving_ids_receive(before, n);
    assert forall|k: int| 0 <= k < receiving_ids(before, n).len() implies wanted_by(
        before,
        n,
        #[trigger] receiving_ids(before, n)[k],
    ) by {
        assert(received_by(before, n, receiving_ids(before, n)[k]));
        let i = choose|i: int|
            0 <= i < before.len() && before[i].id == receiving_ids(before, n)[k] && receives(before[i], n);
        assert(wants_spec(before[i].subscriptions, n));
    }
}

/// Teardown: once no listener has id `id`, a broadcast delivers nothing to
/// `id`, and `id` stays absent afterwards.
pub proof fn lemma_teardown(before: Seq<ListenerModel>, after: Seq<ListenerModel>, n: Notification, id: u64)
    requires
        !has_id(before, id),
        after.len() == before.len(),
        forall|i: int| 0 <= i < before.len() ==> delivered(before[i], #[trigger] after[i], n),
    ensures
        !receiving_ids(before, n).contains(id),
        !has_id(after, id),
{
    lemma_receiving_ids_receive(before, n);
    if receiving_ids(before, n).contains(id) {
        let k = choose|k: int| 0 <= k < receiving_ids(before, n).len() && receiving_ids(before, n)[k] == id;
        assert(received_by(before, n, receiving_ids(before, n)[k]));
        let i = choose|i: int| 0 <= i < before.len() && before[i].id == id && receives(before[i], n);
        assert(before[i].id == id);
    }
    if has_id(after, id) {
        let i = choose|i: int| 0 <= i < after.len() && after[i].id == id;
        assert(delivered(before[i], after[i], n));
        assert(before[i].id == id);
    }
}

/// Backpressure: a listener that wants `n` but whose queue is full does not keep
/// `n` from another listener that wants it and has room; that one gets `n` at
/// the end of its queue and is named as delivered, while the full one is left
/// unchanged.
pub proof fn lemma_backpressure(
    before: Seq<ListenerModel>,
    after: Seq<ListenerModel>,
    n: Notification,
    full: int,
    other: int,
)
    requires
        after.len() == before.len(),
        forall|i: int| 0 <= i < before.len() ==> delivered(before[i], #[trigger] after[i], n),
        0 <= full < before.len(),
        0 <= other < before.len(),
        overflows(before[full], n),
        wants_spec(before[other].subscriptions, n),
        before[other].queue.len() < before[other].capacity,
    ensures
        after[full].queue == before[full].queue,
        after[other].queue.drop_last() == before[other].queue,
        is_notification_of(after[other].queue.last(), n),
        receiving_ids(before, n).contains(before[other].id),
{
    assert(delivered(before[full], after[full], n));
    assert(delivered(before[other], after[other], n));
    lemma_receiver_named(before, n, other);
}

/// The outcome of one broadcast round.
#[derive(Debug)]
pub struct FanOut {
    /// Listeners that got the notification, in registration order.
    pub delivered: Vec<u64>,
    /// Listeners that wanted it but whose queue was full.
    pub dropped: Vec<u64>,
}

#[derive(PartialEq, Eq, Structural, Clone, Copy, Debug)]
pub enum NotifierError {
    /// No listener with this id is registered.
    UnknownListener(u64),
    /// Every listener id has been handed out.
    ListenerIdsExhausted,
    /// `stop` was called while the notifier was not running.
    AlreadyStopped,
}

/// The broadcaster: the registered listeners with their subscriptions and
/// delivery handles, and the fan-out of notifications to them.
#[derive(Debug)]
pub struct Notifier {
    listeners: Vec<Listener>,
    next_id: u64,
    running: bool,
    capacity: usize,
}

impl Notifier {
    pub closed spec fn view(&self) -> Seq<ListenerModel> {
        self.listeners@.map_values(|l: Listener| l@)
    }

    /// The id the next registered listener gets; every present id is below it.
    pub closed spec fn spec_next_id(&self) -> u64 {
        self.next_id
    }

    pub closed spec fn spec_running(&self) -> bool {
        self.running
    }

    /// The capacity of each delivery handle.
    pub closed spec fn spec_capacity(&self) -> nat {
        self.capacity as nat
    }

    pub closed spec fn handles_wf(&self) -> bool {
        forall|i: int| 0 <= i < self.listeners@.len() ==> #[trigger] self.listeners@[i].wf()
    }

    pub open spec fn wf(&self) -> bool {
        &&& self.handles_wf()
        &&& ids_unique(self@)
        &&& forall|i: int| 0 <= i < self@.len() ==> {
            &&& #[trigger] self@[i].id < self.spec_next_id()
            &&& self@[i].capacity == self.spec_capacity()
            &&& self@[i].queue.len() <= self@[i].capacity
            &&& model_wf(self@[i].subscriptions)
        }
    }

    pub open spec fn has_listener(&self, id: u64) -> bool {
        has_id(self@, id)
    }

    /// A notifier with no listener, not yet started, whose delivery handles hold
    /// up to `capacity` messages.
    pub fn new(capacity: usize) -> (r: Notifier)
        ensures
            r.wf(),
            r@ == Seq::<ListenerModel>::empty(),
            r.spec_next_id() == 0,
            !r.spec_running(),
            r.spec_capacity() == capacity,
    {
        let r = Notifier { listeners: Vec::new(), next_id: 0, running: false, capacity };
        proof {
            assert(r@ =~= Seq::<ListenerModel>::empty());
        }
        r
    }

    proof fn lemma_view_index(&self, i: int)
        requires
            0 <= i < self.listeners@.len(),
        ensures
            self@[i] == self.listeners@[i]@,
            self@.len() == self.listeners@.len(),
    {
    }

    /// Finds the position of listener `id`.
    fn find(&self, id: u64) -> (r: Option<usize>)
        requires
            self.wf(),
        ensures
            r is None <==> !self.has_listener(id),
            r matches Some(i) ==> i < self@.len() && self@[i as int].id == id && i == index_of(
                self@,
                id,
            ),
    {
        let mut i: usize = 0;
        while i < self.listeners.len()
            invariant
                i <= self.listeners@.len(),
                self@.len() == self.listeners@.len(),
                ids_unique(self@),
                forall|j: int| 0 <= j < i ==> self@[j].id != id,
            decreases self.listeners@.len() - i,
        {
            if self.listeners[i].id == id {
                proof {
                    self.lemma_view_index(i as int);
                    let k = index_of(self@, id);
                    assert(0 <= k < self@.len() && self@[k].id == id);
                    assert(k == i as int);
                }
                return Some(i);
            }
            proof {
                self.lemma_view_index(i as int);
            }
            i = i + 1;
        }
        None
    }

    /// The listener with id `id`, if it is registered.
    pub fn listener(&self, id: u64) -> (r: Option<&Listener>)
        requires
            self.wf(),
        ensures
            !self.has_listener(id) ==> r is None,
            self.has_listener(id) ==> r is Some && r.unwrap()@ == self@[index_of(self@, id)],
    {
        match self.find(id) {
            None => None,
            Some(i) => {
                proof {
                    self.lemma_view_index(i as int);
                }
                Some(&self.listeners[i])
            },
        }
    }

    pub fn is_running(&self) -> (r: bool)
        ensures
            r == self.spec_running(),
    {
        self.running
    }

    pub fn listener_count(&self) -> (r: usize)
        ensures
            r == self@.len(),
    {
        self.listeners.len()
    }

    /// Registers a fresh listener with no subscription and an empty delivery
    /// handle, and returns its id.
    pub fn register(&mut self) -> (r: Result<u64, NotifierError>)
        requires
            old(self).wf(),
        ensures
            final(self).wf(),
            final(self).spec_running() == old(self).spec_running(),
            final(self).spec_capacity() == old(self).spec_capacity(),
            old(self).spec_next_id() == u64::MAX ==> r == Err::<u64, NotifierError>(
                NotifierError::ListenerIdsExhausted,
            ) && final(self)@ == old(self)@ && final(self).spec_next_id() == old(self).spec_next_id(),
            old(self).spec_next_id() < u64::MAX ==> r == Ok::<u64, NotifierError>(old(self).spec_next_id())
                && final(self).spec_next_id() == old(self).spec_next_id() + 1 && final(self)@ == old(self)@.push(
                ListenerModel {
                    id: old(self).spec_next_id(),
                    subscriptions: empty_model(),
                    queue: Seq::empty(),
                    capacity: old(self).spec_capacity(),
                },
            ),
    {
        if self.next_id == u64::MAX {
            return Err(NotifierError::ListenerIdsExhausted);
        }
        let id = self.next_id;
        let l = Listener { id, subscriptions: Subscriptions::new(), handle: DeliveryHandle::new(self.capacity) };
        self.listeners.push(l);
        self.next_id = id + 1;
        proof {
            assert(self@ =~= old(self)@.push(l@));
            assert forall|i: int| 0 <= i < self.listeners@.len() implies #[trigger] self.listeners@[i].wf() by {
                if i < old(self).listeners@.len() {
                    assert(self.listeners@[i] == old(self).listeners@[i]);
                }
            }
            let n = old(self)@.len();
            assert(model_wf(empty_model()));
            assert forall|i: int| 0 <= i < self@.len() implies {
                &&& #[trigger] self@[i].id < self.spec_next_id()
                &&& self@[i].capacity == self.spec_capacity()
                &&& self@[i].queue.len() <= self@[i].capacity
                &&& model_wf(self@[i].subscriptions)
            } by {
                if i < n {
                    assert(self@[i] == old(self)@[i]);
                    assert(old(self)@[i].id < old(self).spec_next_id());
                } else {
                    assert(self@[i] == l@);
                }
            }
            assert forall|i: int, j: int| 0 <= i < self@.len() && 0 <= j < self@.len() && i != j implies self@[i].id
                != self@[j].id by {
                if i < n && j < n {
                    assert(self@[i] == old(self)@[i]);
                    assert(self@[j] == old(self)@[j]);
                } else if i < n {
                    assert(self@[i] == old(self)@[i]);
                    assert(old(self)@[i].id < old(self).spec_next_id());
                } else if j < n {
                    assert(self@[j] == old(self)@[j]);
                    assert(old(self)@[j].id < old(self).spec_next_id());
                }
            }
        }
        Ok(id)
    }

    /// Removes listener `id` with its subscriptions and delivery handle; a no-op
    /// for an id that is not registered.
    pub fn unregister(&mut self, id: u64) -> (r: bool)
        requires
            old(self).wf(),
        ensures
            final(self).wf(),
            r == old(self).has_listener(id),
            r ==> final(self)@ == old(self)@.remove(index_of(old(self)@, id)),
            !r ==> final(self)@ == old(self)@,
            !final(self).has_listener(id),
            final(self).spec_next_id() == old(self).spec_next_id(),
            final(self).spec_running() == old(self).spec_running(),
            final(self).spec_capacity() == old(self).spec_capacity(),
    {
        match self.find(id) {
            None => false,
            Some(i) => {
                let _gone = self.listeners.remove(i);
                proof {
                    assert(self@ =~= old(self)@.remove(i as int));
                    assert forall|j: int| 0 <= j < self.listeners@.len() implies #[trigger] self.listeners@[j].wf() by {
                        if j < i {
                            assert(self.listeners@[j] == old(self).listeners@[j]);
                        } else {
                            assert(self.listeners@[j] == old(self).listeners@[j + 1]);
                        }
                    }
                    assert forall|j: int| 0 <= j < self@.len() implies self@[j].id != id by {
                        if j < i {
                            assert(self@[j] == old(self)@[j]);
                        } else {
                            assert(self@[j] == old(self)@[j + 1]);
                        }
                    }
                }
                true
            },
        }
    }
    /// A notifier whose listeners keep their ids and capacities stays well formed.
    proof fn lemma_wf_pointwise(a: &Notifier, b: &Notifier)
        requires
            a.wf(),
            b.handles_wf(),
            b@.len() == a@.len(),
            b.spec_next_id() == a.spec_next_id(),
            b.spec_capacity() == a.spec_capacity(),
            forall|i: int|
                0 <= i < b@.len() ==> {
                    &&& (#[trigger] b@[i]).id == a@[i].id
                    &&& b@[i].capacity == a@[i].capacity
                    &&& b@[i].queue.len() <= b@[i].capacity
                    &&& model_wf(b@[i].subscriptions)
                },
        ensures
            b.wf(),
    {
        assert forall|i: int| 0 <= i < b@.len() implies #[trigger] b@[i].id < b.spec_next_id() by {
            assert(a@[i].id < a.spec_next_id());
        }
        assert forall|i: int, j: int| 0 <= i < b@.len() && 0 <= j < b@.len() && i != j implies b@[i].id
            != b@[j].id by {
            assert(a@[i].id != a@[j].id);
        }
    }

    /// A notifier with the same listeners stays well formed.
    proof fn lemma_wf_same_listeners(a: &Notifier, b: &Notifier)
        requires
            a.wf(),
            b.listeners == a.listeners,
            b.next_id == a.next_id,
            b.capacity == a.capacity,
        ensures
            b.wf(),
            b@ == a@,
    {
        assert(b@ =~= a@);
        assert(b.handles_wf());
        assert(ids_unique(b@));
    }

    /// Applies a subscribe or unsubscribe command to listener `id`.
    pub fn execute_subscribe_command(&mut self, id: u64, scope: &Scope, command: Command) -> (r: Result<
        (),
        NotifierError,
    >)
        requires
            old(self).wf(),
        ensures
            final(self).wf(),
            final(self).spec_next_id() == old(self).spec_next_id(),
            final(self).spec_running() == old(self).spec_running(),
            final(self).spec_capacity() == old(self).spec_capacity(),
            !old(self).has_listener(id) ==> r == Err::<(), NotifierError>(NotifierError::UnknownListener(id))
                && final(self)@ == old(self)@,
            old(self).has_listener(id) ==> r is Ok && final(self)@ == old(self)@.update(
                index_of(old(self)@, id),
                ListenerModel {
                    subscriptions: apply_spec(
                        old(self)@[index_of(old(self)@, id)].subscriptions,
                        *scope,
                        command,
                    ),
                    ..old(self)@[index_of(old(self)@, id)]
                },
            ),
    {
        match self.find(id) {
            None => Err(NotifierError::UnknownListener(id)),
            Some(i) => {
                proof {
                    self.lemma_view_index(i as int);
                    assert(self.listeners@[i as int].wf());
                }
                self.listeners[i].subscriptions.apply(scope, command);
                proof {
                    let want = old(self)@.update(
                        i as int,
                        ListenerModel {
                            subscriptions: apply_spec(old(self)@[i as int].subscriptions, *scope, command),
                            ..old(self)@[i as int]
                        },
                    );
                    assert(self@ =~= want);
                    assert forall|j: int| 0 <= j < self.listeners@.len() implies #[trigger] self.listeners@[j].wf() by {
                        if j != i {
                            assert(self.listeners@[j] == old(self).listeners@[j]);
                        }
                    }
                    crate::subscription::lemma_apply_wf(old(self)@[i as int].subscriptions, *scope, command);
                    Self::lemma_wf_pointwise(old(self), self);
                }
                Ok(())
            },
        }
    }

    /// Starts the fan-out stage.
    pub fn start(&mut self)
        requires
            old(self).wf(),
        ensures
            final(self).wf(),
            final(self)@ == old(self)@,
            final(self).spec_running(),
            final(self).spec_next_id() == old(self).spec_next_id(),
            final(self).spec_capacity() == old(self).spec_capacity(),
    {
        self.running = true;
        proof {
            Self::lemma_wf_same_listeners(old(self), self);
        }
    }

    /// Stops the fan-out stage; fails with `AlreadyStopped` when it is not running.
    pub fn stop(&mut self) -> (r: Result<(), NotifierError>)
        requires
            old(self).wf(),
        ensures
            final(self).wf(),
            final(self)@ == old(self)@,
            !final(self).spec_running(),
            final(self).spec_next_id() == old(self).spec_next_id(),
            final(self).spec_capacity() == old(self).spec_capacity(),
            r is Ok <==> old(self).spec_running(),
            r is Err ==> r == Err::<(), NotifierError>(NotifierError::AlreadyStopped),
    {
        if self.running {
            self.running = false;
            proof {
                Self::lemma_wf_same_listeners(old(self), self);
            }
            Ok(())
        } else {
            Err(NotifierError::AlreadyStopped)
        }
    }

    /// Queues `m` on the delivery handle of listener `id`.
    pub fn push_message(&mut self, id: u64, m: Message) -> (r: Result<(), PushError>)
        requires
            old(self).wf(),
        ensures
            final(self).wf(),
            final(self).spec_next_id() == old(self).spec_next_id(),
            final(self).spec_running() == old(self).spec_running(),
            final(self).spec_capacity() == old(self).spec_capacity(),
            !old(self).has_listener(id) ==> r == Err::<(), PushError>(PushError::Closed(m)) && final(self)@
                == old(self)@,
            old(self).has_listener(id) && old(self)@[index_of(old(self)@, id)].queue.len()
                >= old(self).spec_capacity() ==> r == Err::<(), PushError>(PushError::Full(m)) && final(self)@ == old(self)@,
            old(self).has_listener(id) && old(self)@[index_of(old(self)@, id)].queue.len()
                < old(self).spec_capacity() ==> r is Ok && final(self)@ == old(self)@.update(
                index_of(old(self)@, id),
                ListenerModel {
                    queue: old(self)@[index_of(old(self)@, id)].queue.push(m),
                    ..old(self)@[index_of(old(self)@, id)]
                },
            ),
    {
        match self.find(id) {
            None => Err(PushError::Closed(m)),
            Some(i) => {
                proof {
                    self.lemma_view_index(i as int);
                    assert(self.listeners@[i as int].wf());
                }
                let r = self.listeners[i].handle.push(m);
                proof {
                    assert forall|j: int| 0 <= j < self.listeners@.len() implies #[trigger] self.listeners@[j].wf() by {
                        if j != i {
                            assert(self.listeners@[j] == old(self).listeners@[j]);
                        }
                    }
                    if r is Ok {
                        let want = old(self)@.update(
                            i as int,
                            ListenerModel { queue: old(self)@[i as int].queue.push(m), ..old(self)@[i as int] },
                        );
                        assert(self@ =~= want);
                    } else {
                        assert(self@ =~= old(self)@);
                    }
                    Self::lemma_wf_pointwise(old(self), self);
                }
                r
            },
        }
    }

    /// Takes every message queued for listener `id`, oldest first; `None` when
    /// no such listener is registered.
    pub fn take_messages(&mut self, id: u64) -> (r: Option<Vec<Message>>)
        requires
            old(self).wf(),
        ensures
            final(self).wf(),
            final(self).spec_next_id() == old(self).spec_next_id(),
            final(self).spec_running() == old(self).spec_running(),
            final(self).spec_capacity() == old(self).spec_capacity(),
            !old(self).has_listener(id) ==> r is None && final(self)@ == old(self)@,
            old(self).has_listener(id) ==> r is Some && r.unwrap()@ == old(self)@[index_of(old(self)@, id)].queue
                && final(self)@ == old(self)@.update(
                index_of(old(self)@, id),
                ListenerModel { queue: Seq::empty(), ..old(self)@[index_of(old(self)@, id)] },
            ),
    {
        match self.find(id) {
            None => None,
            Some(i) => {
                proof {
                    self.lemma_view_index(i as int);
                    assert(self.listeners@[i as int].wf());
                }
                let v = self.listeners[i].handle.drain();
                proof {
                    assert forall|j: int| 0 <= j < self.listeners@.len() implies #[trigger] self.listeners@[j].wf() by {
                        if j != i {
                            assert(self.listeners@[j] == old(self).listeners@[j]);
                        }
                    }
                    let want = old(self)@.update(
                        i as int,
                        ListenerModel { queue: Seq::empty(), ..old(self)@[i as int] },
                    );
                    assert(self@ =~= want);
                    Self::lemma_wf_pointwise(old(self), self);
                }
                Some(v)
            },
        }
    }
    /// One fan-out round: pushes `n` onto the delivery handle of every listener
    /// that wants it and has room, skipping full ones; a notifier that is not
    /// running delivers nothing.
    pub fn broadcast(&mut self, n: &Notification) -> (r: FanOut)
        requires
            old(self).wf(),
        ensures
            final(self).wf(),
            final(self).spec_next_id() == old(self).spec_next_id(),
            final(self).spec_running() == old(self).spec_running(),
            final(self).spec_capacity() == old(self).spec_capacity(),
            !old(self).spec_running() ==> final(self)@ == old(self)@ && r.delivered@ == Seq::<u64>::empty()
                && r.dropped@ == Seq::<u64>::empty(),
            old(self).spec_running() ==> {
                &&& final(self)@.len() == old(self)@.len()
                &&& forall|i: int|
                    0 <= i < old(self)@.len() ==> delivered(old(self)@[i], #[trigger] final(self)@[i], *n)
                &&& r.delivered@ == receiving_ids(old(self)@, *n)
                &&& r.dropped@ == overflowing_ids(old(self)@, *n)
            },
    {
        let mut delivered_to: Vec<u64> = Vec::new();
        let mut dropped: Vec<u64> = Vec::new();
        if !self.running {
            return FanOut { delivered: delivered_to, dropped };
        }
        let mut i: usize = 0;
        while i < self.listeners.len()
            invariant
                old(self).wf(),
                i <= self.listeners@.len(),
                self.listeners@.len() == old(self).listeners@.len(),
                self@.len() == self.listeners@.len(),
                old(self)@.len() == self.listeners@.len(),
                self.handles_wf(),
                self.next_id == old(self).next_id,
                self.running == old(self).running,
                self.capacity == old(self).capacity,
                forall|j: int| 0 <= j < i ==> delivered(old(self)@[j], #[trigger] self@[j], *n),
                forall|j: int| i <= j < self@.len() ==> #[trigger] self@[j] == old(self)@[j],
                delivered_to@ == receiving_ids(old(self)@.subrange(0, i as int), *n),
                dropped@ == overflowing_ids(old(self)@.subrange(0, i as int), *n),
            decreases self.listeners@.len() - i,
        {
            proof {
                self.lemma_view_index(i as int);
                assert(self.listeners@[i as int].wf());
                assert(self@[i as int] == old(self)@[i as int]);
            }
            let before = Ghost(self@);
            let before_l = Ghost(self.listeners@);
            let wants = self.listeners[i].subscriptions.wants(n);
            if wants {
                if self.listeners[i].handle.is_full() {
                    dropped.push(self.listeners[i].id);
                } else {
                    let m = notification_message(n);
                    let _ = self.listeners[i].handle.push(m);
                    delivered_to.push(self.listeners[i].id);
                    proof {
                        assert(self@[i as int].queue.drop_last() =~= before@[i as int].queue);
                    }
                }
            }
            proof {
                assert forall|j: int| 0 <= j < self.listeners@.len() implies #[trigger] self.listeners@[j].wf() by {
                    if j != i {
                        assert(self.listeners@[j] == before_l@[j]);
                    }
                }
                let pre = old(self)@.subrange(0, i as int + 1);
                assert(pre.drop_last() =~= old(self)@.subrange(0, i as int));
                assert(pre.last() == old(self)@[i as int]);
                assert forall|j: int| 0 <= j < self@.len() && j != i implies #[trigger] self@[j] == before@[j] by {
                    assert(self.listeners@[j] == before_l@[j]);
                }
            }
            i = i + 1;
        }
        proof {
            assert(old(self)@.subrange(0, i as int) =~= old(self)@);
            Self::lemma_wf_pointwise(old(self), self);
        }
        FanOut { delivered: delivered_to, dropped }
    }

    /// The number of listeners that hold scope `kind`.
    pub fn subscriber_count(&self, kind: ScopeKind) -> (r: usize)
        requires
            self.wf(),
        ensures
            r == subscribed_count(self@, kind),
    {
        let mut count: usize = 0;
        let mut i: usize = 0;
        while i < self.listeners.len()
            invariant
                self.wf(),
                i <= self.listeners@.len(),
                self@.len() == self.listeners@.len(),
                count <= i,
                count == subscribed_count(self@.subrange(0, i as int), kind),
            decreases self.listeners@.len() - i,
        {
            proof {
                self.lemma_view_index(i as int);
                assert(self.listeners@[i as int].wf());
                let pre = self@.subrange(0, i as int + 1);
                assert(pre.drop_last() =~= self@.subrange(0, i as int));
            }
            if self.listeners[i].subscriptions.holds(kind) {
                count = count + 1;
            }
            i = i + 1;
        }
        proof {
            assert(self@.subrange(0, i as int) =~= self@);
        }
        count
    }
}

} // verus!
