use vstd::prelude::*;
use rustc_hash::FxHashMap;
use crate::kind::Kind;

verus! {

/// Storage slot of a variable in its scope's frame.
#[derive(Clone, Copy, Debug, PartialEq, Eq, Structural)]
pub struct VarSlot {
    pub offset: usize,
    pub size: usize,
    pub kind: Kind,
}

/// Shape of a declared function.
#[derive(Clone, Debug)]
pub struct Signature {
    pub arity: usize,
    pub returns: Kind,
    pub params: Vec<Kind>,
}

/// Signature as seen by contracts.
pub struct SigView {
    pub arity: nat,
    pub returns: Kind,
    pub params: Seq<Kind>,
}

impl Signature {
    pub open spec fn view(&self) -> SigView {
        SigView { arity: self.arity as nat, returns: self.returns, params: self.params@ }
    }
}

/// Variables of one scope, keyed by symbol, in an Fx hash map.
#[verifier::external_body]
pub struct VarTable {
    map: FxHashMap<usize, VarSlot>,
}

/// Signatures of one scope, keyed by symbol, in an Fx hash map.
#[verifier::external_body]
pub struct SigTable {
    map: FxHashMap<usize, Signature>,
}

/// What a variable table holds.
pub uninterp spec fn var_entries(t: VarTable) -> Map<usize, VarSlot>;

/// What a signature table holds.
pub uninterp spec fn sig_entries(t: SigTable) -> Map<usize, SigView>;

impl VarTable {
    /// Relies on `FxHashMap::default`: a new map is empty.
    #[verifier::external_body]
    pub(crate) fn new() -> (r: VarTable)
        ensures
            var_entries(r).dom() =~= Set::empty(),
    {
        VarTable { map: FxHashMap::default() }
    }

    /// Relies on `HashMap::get` of the Fx map: the slot stored under `k`, if any.
    #[verifier::external_body]
    pub(crate) fn get(&self, k: usize) -> (r: Option<VarSlot>)
        ensures
            r is Some <==> var_entries(*self).contains_key(k),
            r is Some ==> r->0 == var_entries(*self)[k],
    {
        self.map.get(&k).copied()
    }

    /// Relies on `HashMap::insert` of the Fx map: `k` now maps to `v`, the
    /// other entries stay.
    #[verifier::external_body]
    pub(crate) fn insert(&mut self, k: usize, v: VarSlot)
        ensures
            var_entries(*final(self)) == var_entries(*old(self)).insert(k, v),
    {
        self.map.insert(k, v);
    }
}

impl SigTable {
    /// Relies on `FxHashMap::default`: a new map is empty.
    #[verifier::external_body]
    pub(crate) fn new() -> (r: SigTable)
        ensures
            sig_entries(r).dom() =~= Set::empty(),
    {
        SigTable { map: FxHashMap::default() }
    }

    /// Relies on `HashMap::get` of the Fx map and `Clone` of the stored
    /// signature: a copy of the signature stored under `k`, if any.
    #[verifier::external_body]
    pub(crate) fn get(&self, k: usize) -> (r: Option<Signature>)
        ensures
            r is Some <==> sig_entries(*self).contains_key(k),
            r is Some ==> r->0@ == sig_entries(*self)[k],
    {
        self.map.get(&k).cloned()
    }

    /// Relies on `HashMap::insert` of the Fx map: `k` now maps to `v`, the
    /// other entries stay.
    #[verifier::external_body]
    pub(crate) fn insert(&mut self, k: usize, v: Signature)
        ensures
            sig_entries(*final(self)) == sig_entries(*old(self)).insert(k, v@),
    {
        self.map.insert(k, v);
    }
}

} // verus!
