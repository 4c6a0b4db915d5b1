use vstd::prelude::*;

verus! {

/// The closed set of event categories a listener can subscribe to.
#[derive(PartialEq, Eq, Structural, Clone, Copy, Debug)]
pub enum ScopeKind {
    BlockAdded,
    VirtualChainChanged,
    FinalityConflict,
    FinalityConflictResolved,
    UtxosChanged,
    SinkBlueScoreChanged,
    VirtualDaaScoreChanged,
    PruningPointUtxoSetOverride,
    NewBlockTemplate,
}

/// Number of scope kinds.
pub const SCOPE_COUNT: usize = 9;

impl ScopeKind {
    /// Position of the kind in the fixed enumeration.
    pub open spec fn spec_index(self) -> nat {
        match self {
            ScopeKind::BlockAdded => 0,
            ScopeKind::VirtualChainChanged => 1,
            ScopeKind::FinalityConflict => 2,
            ScopeKind::FinalityConflictResolved => 3,
            ScopeKind::UtxosChanged => 4,
            ScopeKind::SinkBlueScoreChanged => 5,
            ScopeKind::VirtualDaaScoreChanged => 6,
            ScopeKind::PruningPointUtxoSetOverride => 7,
            ScopeKind::NewBlockTemplate => 8,
        }
    }

    pub fn index(&self) -> (r: usize)
        ensures
            r == self.spec_index(),
            r < SCOPE_COUNT,
    {
        match self {
            ScopeKind::BlockAdded => 0,
            ScopeKind::VirtualChainChanged => 1,
            ScopeKind::FinalityConflict => 2,
            ScopeKind::FinalityConflictResolved => 3,
            ScopeKind::UtxosChanged => 4,
            ScopeKind::SinkBlueScoreChanged => 5,
            ScopeKind::VirtualDaaScoreChanged => 6,
            ScopeKind::PruningPointUtxoSetOverride => 7,
            ScopeKind::NewBlockTemplate => 8,
        }
    }
}

} // verus!

verus! {

/// Whether a subscription command starts or stops notifications.
#[derive(PartialEq, Eq, Structural, Clone, Copy, Debug)]
pub enum Command {
    Start,
    Stop,
}

/// An event scope together with its filter parameters.
///
/// Addresses are identified by their 64-bit key.
#[derive(Debug)]
pub enum Scope {
    BlockAdded,
    VirtualChainChanged { include_accepted_transaction_ids: bool },
    FinalityConflict,
    FinalityConflictResolved,
    UtxosChanged { addresses: Vec<u64> },
    SinkBlueScoreChanged,
    VirtualDaaScoreChanged,
    PruningPointUtxoSetOverride,
    NewBlockTemplate,
}

impl Scope {
    pub open spec fn spec_kind(&self) -> ScopeKind {
        match self {
            Scope::BlockAdded => ScopeKind::BlockAdded,
            Scope::VirtualChainChanged { .. } => ScopeKind::VirtualChainChanged,
            Scope::FinalityConflict => ScopeKind::FinalityConflict,
            Scope::FinalityConflictResolved => ScopeKind::FinalityConflictResolved,
            Scope::UtxosChanged { .. } => ScopeKind::UtxosChanged,
            Scope::SinkBlueScoreChanged => ScopeKind::SinkBlueScoreChanged,
            Scope::VirtualDaaScoreChanged => ScopeKind::VirtualDaaScoreChanged,
            Scope::PruningPointUtxoSetOverride => ScopeKind::PruningPointUtxoSetOverride,
            Scope::NewBlockTemplate => ScopeKind::NewBlockTemplate,
        }
    }

    pub fn kind(&self) -> (r: ScopeKind)
        ensures
            r == self.spec_kind(),
    {
        match self {
            Scope::BlockAdded => ScopeKind::BlockAdded,
            Scope::VirtualChainChanged { .. } => ScopeKind::VirtualChainChanged,
            Scope::FinalityConflict => ScopeKind::FinalityConflict,
            Scope::FinalityConflictResolved => ScopeKind::FinalityConflictResolved,
            Scope::UtxosChanged { .. } => ScopeKind::UtxosChanged,
            Scope::SinkBlueScoreChanged => ScopeKind::SinkBlueScoreChanged,
            Scope::VirtualDaaScoreChanged => ScopeKind::VirtualDaaScoreChanged,
            Scope::PruningPointUtxoSetOverride => ScopeKind::PruningPointUtxoSetOverride,
            Scope::NewBlockTemplate => ScopeKind::NewBlockTemplate,
        }
    }

    /// The addresses a UTXOs-changed scope filters on; empty for other scopes.
    pub open spec fn spec_addresses(&self) -> Set<u64> {
        match self {
            Scope::UtxosChanged { addresses } => addresses@.to_set(),
            _ => Set::empty(),
        }
    }

    /// The accepted-transaction-ids flag of a virtual-chain-changed scope; false otherwise.
    pub open spec fn spec_include_accepted(&self) -> bool {
        match self {
            Scope::VirtualChainChanged { include_accepted_transaction_ids } => *include_accepted_transaction_ids,
            _ => false,
        }
    }
}

/// Copies a list of address keys.
pub fn copy_keys(v: &Vec<u64>) -> (r: Vec<u64>)
    ensures
        r@ == v@,
{
    let mut r: Vec<u64> = Vec::new();
    let mut i: usize = 0;
    while i < v.len()
        invariant
            i <= v.len(),
            r@ == v@.subrange(0, i as int),
        decreases v.len() - i,
    {
        r.push(v[i]);
        i = i + 1;
        proof {
            assert(r@ =~= v@.subrange(0, i as int));
        }
    }
    proof {
        assert(r@ =~= v@);
    }
    r
}

} // verus!
