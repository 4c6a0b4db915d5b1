use vstd::prelude::*;
use crate::notification::Notification;
use crate::scope::{copy_keys, Command, Scope, ScopeKind, SCOPE_COUNT};

verus! {

/// What one listener is subscribed to.
pub struct SubscriptionModel {
    pub active: Set<ScopeKind>,
    pub include_accepted_transaction_ids: bool,
    pub addresses: Set<u64>,
}

/// A model without filter parameters left over from a scope it no longer holds.
pub open spec fn model_wf(m: SubscriptionModel) -> bool {
    &&& (!m.active.contains(ScopeKind::VirtualChainChanged) ==> !m.include_accepted_transaction_ids)
    &&& (!m.active.contains(ScopeKind::UtxosChanged) ==> m.addresses == Set::<u64>::empty())
}

/// The model of a listener that holds no subscription.
pub open spec fn empty_model() -> SubscriptionModel {
    SubscriptionModel {
        active: Set::empty(),
        include_accepted_transaction_ids: false,
        addresses: Set::empty(),
    }
}

/// The effect of a subscription command: `Start` adds the scope and replaces its
/// filter (last write wins), `Stop` removes the scope and clears its filter.
pub open spec fn apply_spec(m: SubscriptionModel, scope: Scope, command: Command) -> SubscriptionModel {
    let kind = scope.spec_kind();
    let on = command == Command::Start;
    SubscriptionModel {
        active: if on { m.active.insert(kind) } else { m.active.remove(kind) },
        include_accepted_transaction_ids: if kind == ScopeKind::VirtualChainChanged {
            on && scope.spec_include_accepted()
        } else {
            m.include_accepted_transaction_ids
        },
        addresses: if kind == ScopeKind::UtxosChanged {
            if on { scope.spec_addresses() } else { Set::empty() }
        } else {
            m.addresses
        },
    }
}

/// Whether a listener with subscriptions `m` is owed notification `n`: it holds
/// the scope of `n`, and for UTXOs-changed `n` touches one of its addresses.
pub open spec fn wants_spec(m: SubscriptionModel, n: Notification) -> bool {
    &&& m.active.contains(n.kind)
    &&& (n.kind == ScopeKind::UtxosChanged ==> n.touches(m.addresses))
}

/// Applying the same subscription command twice leaves the same state as applying it once.
pub proof fn lemma_apply_idempotent(m: SubscriptionModel, scope: Scope, command: Command)
    ensures
        apply_spec(apply_spec(m, scope, command), scope, command) == apply_spec(m, scope, command),
{
    let once = apply_spec(m, scope, command);
    let twice = apply_spec(once, scope, command);
    assert(twice.active =~= once.active);
}

/// Stopping a scope that is not held leaves the subscriptions as they were.
pub proof fn lemma_stop_unheld_is_noop(m: SubscriptionModel, scope: Scope)
    requires
        model_wf(m),
        !m.active.contains(scope.spec_kind()),
    ensures
        apply_spec(m, scope, Command::Stop) == m,
{
    let r = apply_spec(m, scope, Command::Stop);
    assert(r.active =~= m.active);
}

/// Subscription commands keep a model well formed.
pub proof fn lemma_apply_wf(m: SubscriptionModel, scope: Scope, command: Command)
    requires
        model_wf(m),
    ensures
        model_wf(apply_spec(m, scope, command)),
{
}

/// The subscriptions of one listener: a flag per scope kind and the filter
/// parameters of the parameterised scopes.
#[derive(Debug)]
pub struct Subscriptions {
    active: Vec<bool>,
    include_accepted_transaction_ids: bool,
    addresses: Vec<u64>,
}

impl Subscriptions {
    pub closed spec fn wf(&self) -> bool {
        &&& self.active@.len() == SCOPE_COUNT
        &&& model_wf(self@)
    }

    pub closed spec fn view(&self) -> SubscriptionModel {
        SubscriptionModel {
            active: Set::new(|k: ScopeKind| self.active@[k.spec_index() as int]),
            include_accepted_transaction_ids: self.include_accepted_transaction_ids,
            addresses: self.addresses@.to_set(),
        }
    }

    /// No subscription at all.
    pub fn new() -> (r: Subscriptions)
        ensures
            r.wf(),
            r@ == empty_model(),
    {
        let mut active: Vec<bool> = Vec::new();
        let mut i: usize = 0;
        while i < SCOPE_COUNT
            invariant
                i <= SCOPE_COUNT,
                active@.len() == i,
                forall|j: int| 0 <= j < i ==> !active@[j],
            decreases SCOPE_COUNT - i,
        {
            active.push(false);
            i = i + 1;
        }
        let r = Subscriptions { active, include_accepted_transaction_ids: false, addresses: Vec::new() };
        proof {
            assert(r@.active =~= Set::<ScopeKind>::empty());
            assert(r@.addresses =~= Set::<u64>::empty());
        }
        r
    }

    /// Whether the scope `kind` is held.
    pub fn holds(&self, kind: ScopeKind) -> (r: bool)
        requires
            self.wf(),
        ensures
            r == self@.active.contains(kind),
    {
        self.active[kind.index()]
    }

    pub fn include_accepted_transaction_ids(&self) -> (r: bool)
        ensures
            r == self@.include_accepted_transaction_ids,
    {
        self.include_accepted_transaction_ids
    }

    /// The addresses the UTXOs-changed subscription filters on.
    pub fn addresses(&self) -> (r: &Vec<u64>)
        ensures
            r@.to_set() == self@.addresses,
    {
        &self.addresses
    }

    /// Applies a subscription command.
    pub fn apply(&mut self, scope: &Scope, command: Command)
        requires
            old(self).wf(),
        ensures
            final(self).wf(),
            final(self)@ == apply_spec(old(self)@, *scope, command),
    {
        let kind = scope.kind();
        let on = command == Command::Start;
        self.active.set(kind.index(), on);
        match scope {
            Scope::VirtualChainChanged { include_accepted_transaction_ids } => {
                self.include_accepted_transaction_ids = on && *include_accepted_transaction_ids;
            },
            Scope::UtxosChanged { addresses } => {
                if on {
                    self.addresses = copy_keys(addresses);
                } else {
                    self.addresses = Vec::new();
                }
            },
            _ => {},
        }
        proof {
            let want = apply_spec(old(self)@, *scope, command);
            assert(self@.active =~= want.active);
            assert(self@.addresses =~= want.addresses);
            lemma_apply_wf(old(self)@, *scope, command);
        }
    }

    /// Whether notification `n` is owed to this listener.
    pub fn wants(&self, n: &Notification) -> (r: bool)
        requires
            self.wf(),
        ensures
            r == wants_spec(self@, *n),
    {
        if !self.holds(n.kind) {
            return false;
        }
        match n.kind {
            ScopeKind::UtxosChanged => {
                let mut i: usize = 0;
                while i < n.addresses.len()
                    invariant
                        i <= n.addresses@.len(),
                        self@.active.contains(n.kind),
                        forall|j: int| 0 <= j < i ==> !self@.addresses.contains(#[trigger] n.addresses@[j]),
                    decreases n.addresses@.len() - i,
                {
                    if self.has_address(n.addresses[i]) {
                        proof {
                            assert(self@.addresses.contains(n.addresses@[i as int]));
                            assert(n.touches(self@.addresses));
                        }
                        return true;
                    }
                    i = i + 1;
                }
                false
            },
            _ => true,
        }
    }

    fn has_address(&self, a: u64) -> (r: bool)
        ensures
            r == self@.addresses.contains(a),
    {
        let mut i: usize = 0;
        while i < self.addresses.len()
            invariant
                i <= self.addresses@.len(),
                forall|j: int| 0 <= j < i ==> self.addresses@[j] != a,
            decreases self.addresses@.len() - i,
        {
            if self.addresses[i] == a {
                return true;
            }
            i = i + 1;
        }
        false
    }
}

} // verus!
