use vstd::prelude::*;
use crate::scope::ScopeKind;

verus! {

/// A converted domain event, tagged with exactly one scope.
///
/// `addresses` lists the address keys a UTXOs-changed event touches; `payload`
/// is the event body in the gateway's external shape.
#[derive(Debug)]
pub struct Notification {
    pub kind: ScopeKind,
    pub addresses: Vec<u64>,
    pub payload: Vec<u8>,
}

impl Notification {
    pub fn new(kind: ScopeKind, addresses: Vec<u64>, payload: Vec<u8>) -> (r: Notification)
        ensures
            r.kind == kind,
            r.addresses@ == addresses@,
            r.payload@ == payload@,
    {
        Notification { kind, addresses, payload }
    }

    /// Whether the event touches some address of `set`.
    pub open spec fn touches(&self, set: Set<u64>) -> bool {
        exists|i: int| 0 <= i < self.addresses@.len() && set.contains(#[trigger] self.addresses@[i])
    }

    /// An independent copy of the notification.
    pub fn duplicate(&self) -> (r: Notification)
        ensures
            r.kind == self.kind,
            r.addresses@ == self.addresses@,
            r.payload@ == self.payload@,
    {
        Notification { kind: self.kind, addresses: crate::scope::copy_keys(&self.addresses), payload: copy_bytes(&self.payload) }
    }
}

/// Copies a byte buffer.
pub fn copy_bytes(v: &Vec<u8>) -> (r: Vec<u8>)
    ensures
        r@ == v@,
{
    let mut r: Vec<u8> = Vec::new();
    let mut i: usize = 0;
    while i < v.len()
        invariant
            i <= v.len(),
            r@ == v@.subrange(0, i as int),
        decreases v.len() - i,
    {
        r.push(v[i]);
        i = i + 1;
        proof {
            assert(r@ =~= v@.subrange(0, i as int));
        }
    }
    proof {
        assert(r@ =~= v@);
    }
    r
}

} // verus!
