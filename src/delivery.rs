use vstd::prelude::*;
use crate::notification::Notification;
use crate::scope::ScopeKind;

verus! {

/// The id carried by pushed notifications, which answer no request.
pub const NOTIFICATION_ID: u64 = 0;

/// The body of an outbound message.
#[derive(Debug)]
pub enum ResponsePayload {
    /// Answer to business call `method`: the encoded reply, or the error the
    /// conversion or the core service gave.
    Call { method: u16, result: Result<Vec<u8>, String> },
    /// Answer to a subscribe or unsubscribe request for `kind`.
    Notify { kind: ScopeKind, result: Result<(), String> },
    /// Answer to a legacy stop-notifying request for `kind`.
    StopNotifying { kind: ScopeKind, result: Result<(), String> },
    /// Answer to a request that carried no payload.
    MissingPayload,
    /// A pushed event.
    Notification(Notification),
}

/// An outbound envelope: `id` echoes the request it answers.
#[derive(Debug)]
pub struct Message {
    pub id: u64,
    pub payload: ResponsePayload,
}

/// Whether `m` is the pushed form of `n`.
pub open spec fn is_notification_of(m: Message, n: Notification) -> bool {
    &&& m.id == NOTIFICATION_ID
    &&& match m.payload {
        ResponsePayload::Notification(c) => c.kind == n.kind && c.addresses@ == n.addresses@ && c.payload@
            == n.payload@,
        _ => false,
    }
}

/// Builds the pushed form of a notification.
pub fn notification_message(n: &Notification) -> (r: Message)
    ensures
        is_notification_of(r, *n),
{
    Message { id: NOTIFICATION_ID, payload: ResponsePayload::Notification(n.duplicate()) }
}

/// Why a message could not be queued; the message is handed back.
#[derive(Debug)]
pub enum PushError {
    /// The queue holds as many messages as its capacity.
    Full(Message),
    /// The connection is gone.
    Closed(Message),
}

impl PushError {
    pub open spec fn spec_message(self) -> Message {
        match self {
            PushError::Full(m) => m,
            PushError::Closed(m) => m,
        }
    }
}

/// A bounded, ordered queue of outbound messages for one connection.
#[derive(Debug)]
pub struct DeliveryHandle {
    messages: Vec<Message>,
    capacity: usize,
}

impl DeliveryHandle {
    pub closed spec fn queue(&self) -> Seq<Message> {
        self.messages@
    }

    pub closed spec fn spec_capacity(&self) -> nat {
        self.capacity as nat
    }

    pub open spec fn wf(&self) -> bool {
        self.queue().len() <= self.spec_capacity()
    }

    pub fn new(capacity: usize) -> (r: DeliveryHandle)
        ensures
            r.wf(),
            r.queue() == Seq::<Message>::empty(),
            r.spec_capacity() == capacity,
    {
        DeliveryHandle { messages: Vec::new(), capacity }
    }

    pub fn capacity(&self) -> (r: usize)
        ensures
            r == self.spec_capacity(),
    {
        self.capacity
    }

    pub fn len(&self) -> (r: usize)
        ensures
            r == self.queue().len(),
    {
        self.messages.len()
    }

    pub fn is_full(&self) -> (r: bool)
        requires
            self.wf(),
        ensures
            r == (self.queue().len() == self.spec_capacity()),
    {
        self.messages.len() >= self.capacity
    }

    /// Appends `m` unless the queue is full; a full queue is left as it was and
    /// `m` comes back in `PushError::Full`.
    pub fn push(&mut self, m: Message) -> (r: Result<(), PushError>)
        requires
            old(self).wf(),
        ensures
            final(self).wf(),
            final(self).spec_capacity() == old(self).spec_capacity(),
            old(self).queue().len() < old(self).spec_capacity() ==> r is Ok && final(self).queue()
                == old(self).queue().push(m),
            old(self).queue().len() == old(self).spec_capacity() ==> r == Err::<(), PushError>(
                PushError::Full(m),
            ) && final(self).queue() == old(self).queue(),
    {
        if self.messages.len() >= self.capacity {
            Err(PushError::Full(m))
        } else {
            self.messages.push(m);
            Ok(())
        }
    }

    /// Takes every queued message, oldest first, leaving the queue empty.
    pub fn drain(&mut self) -> (r: Vec<Message>)
        requires
            old(self).wf(),
        ensures
            final(self).wf(),
            r@ == old(self).queue(),
            final(self).queue() == Seq::<Message>::empty(),
            final(self).spec_capacity() == old(self).spec_capacity(),
    {
        let mut r: Vec<Message> = Vec::new();
        core::mem::swap(&mut r, &mut self.messages);
        r
    }
}

} // verus!
