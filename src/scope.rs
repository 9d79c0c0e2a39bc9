use vstd::prelude::*;
use crate::error::CompileError;
use crate::kind::{Kind, kind_size};
pub use crate::tables::{VarSlot, Signature, SigView, VarTable, SigTable, var_entries, sig_entries};

verus! {

/// Sum of the slot sizes of `names`, in the order given.
pub open spec fn frame_sum(m: Map<usize, VarSlot>, names: Seq<usize>) -> nat
    decreases names.len(),
{
    if names.len() == 0 {
        0
    } else {
        frame_sum(m, names.drop_last()) + m[names.last()].size as nat
    }
}

/// What contracts see of a scope.
pub struct ScopeModel {
    pub parent: Option<usize>,
    pub gen: nat,
    pub owner: Option<usize>,
    pub vars: Map<usize, VarSlot>,
    pub sigs: Map<usize, SigView>,
    pub pos: nat,
}

/// A scope just opened: no variables, no functions, an empty frame.
pub open spec fn fresh_scope(parent: Option<usize>, gen: nat, owner: Option<usize>) -> ScopeModel {
    ScopeModel { parent, gen, owner, vars: Map::empty(), sigs: Map::empty(), pos: 0 }
}

/// `m` after declaring a variable of `size` units and kind `kind`.
pub open spec fn with_var(m: ScopeModel, name: usize, size: nat, kind: Kind) -> ScopeModel {
    ScopeModel {
        vars: m.vars.insert(name, VarSlot { offset: m.pos as usize, size: size as usize, kind }),
        pos: m.pos + size,
        ..m
    }
}

/// `m` after declaring a function.
pub open spec fn with_sig(m: ScopeModel, name: usize, sig: SigView) -> ScopeModel {
    ScopeModel { sigs: m.sigs.insert(name, sig), ..m }
}

pub open spec fn models(s: Seq<Scope>) -> Seq<ScopeModel> {
    s.map_values(|x: Scope| x.model())
}

/// One lexical scope: its frame slice, its variables and its functions.
pub struct Scope {
    parent: Option<usize>,
    variables: VarTable,
    signatures: SigTable,
    pos: usize,
    generation: usize,
    name: Option<usize>,
    /// Names of the variables in the order they were declared.
    declared: Ghost<Seq<usize>>,
}

impl Scope {
    pub open spec fn model(&self) -> ScopeModel {
        ScopeModel {
            parent: self.parent_spec(),
            gen: self.gen_spec(),
            owner: self.owner(),
            vars: self.vars(),
            sigs: self.sigs(),
            pos: self.pos_spec(),
        }
    }

    pub closed spec fn parent_spec(&self) -> Option<usize> {
        self.parent
    }

    pub closed spec fn pos_spec(&self) -> nat {
        self.pos as nat
    }

    pub closed spec fn gen_spec(&self) -> nat {
        self.generation as nat
    }

    pub closed spec fn owner(&self) -> Option<usize> {
        self.name
    }

    pub closed spec fn vars(&self) -> Map<usize, VarSlot> {
        var_entries(self.variables)
    }

    pub closed spec fn sigs(&self) -> Map<usize, SigView> {
        sig_entries(self.signatures)
    }

    /// Variable names in declaration order.
    pub closed spec fn order(&self) -> Seq<usize> {
        self.declared@
    }

    /// Offsets are handed out in declaration order: each variable sits where
    /// the ones declared before it end, and the cursor is past the last one.
    pub open spec fn wf(&self) -> bool {
        &&& self.order().no_duplicates()
        &&& forall|k: usize| self.vars().contains_key(k) <==> self.order().contains(k)
        &&& forall|i: int|
            0 <= i < self.order().len() ==> (#[trigger] self.vars()[self.order()[i]]).offset
                == frame_sum(self.vars(), self.order().take(i))
        &&& self.pos_spec() == frame_sum(self.vars(), self.order())
    }

    /// A scope below `parent` (if any) at depth `gen`, owned by the function
    /// `name` when that is given.
    pub fn new(parent: Option<usize>, gen: usize, name: Option<usize>) -> (r: Scope)
        ensures
            r.wf(),
            r.parent_spec() == parent,
            r.gen_spec() == gen,
            r.owner() == name,
            r.pos_spec() == 0,
            r.vars().dom() =~= Set::empty(),
            r.sigs().dom() =~= Set::empty(),
    {
        Scope {
            parent,
            variables: VarTable::new(),
            signatures: SigTable::new(),
            pos: 0,
            generation: gen,
            name,
            declared: Ghost(Seq::empty()),
        }
    }

    pub fn gen(&self) -> (r: usize)
        ensures
            r as nat == self.gen_spec(),
    {
        self.generation
    }

    pub fn id(&self) -> (r: Option<usize>)
        ensures
            r == self.owner(),
    {
        self.name
    }

    pub fn has_parent(&self) -> (r: bool)
        ensures
            r == self.parent_spec() is Some,
    {
        self.parent.is_some()
    }

    pub fn parent(&self) -> (r: Option<usize>)
        ensures
            r == self.parent_spec(),
    {
        self.parent
    }

    pub fn pos(&self) -> (r: usize)
        ensures
            r as nat == self.pos_spec(),
    {
        self.pos
    }

    /// Whether falling off the end of this scope's statements is allowed: the
    /// scope belongs to no function, or its function returns `Void`.
    pub fn is_void(&self) -> (r: bool)
        ensures
            r == scope_is_void(self.model()),
    {
        match self.name {
            None => true,
            Some(f) => match self.signatures.get(f) {
                Some(sig) => matches!(sig.returns, Kind::Void),
                None => true,
            },
        }
    }

    /// The variable declared under `name` in this scope itself.
    pub fn get_local_var(&self, name: usize) -> (r: Option<VarSlot>)
        ensures
            r is Some <==> self.vars().contains_key(name),
            r is Some ==> r->0 == self.vars()[name],
    {
        self.variables.get(name)
    }

    /// The signature declared under `name` in this scope itself.
    pub fn get_local_signature(&self, name: usize) -> (r: Option<Signature>)
        ensures
            r is Some <==> self.sigs().contains_key(name),
            r is Some ==> r->0@ == self.sigs()[name],
    {
        self.signatures.get(name)
    }

    /// Declares a function in this scope; fails if the name is taken here.
    pub fn add_signature(&mut self, name: usize, signature: Signature) -> (r: Result<(), CompileError>)
        ensures
            r == declare_sig_outcome(old(self).model(), name),
            r is Err ==> *final(self) == *old(self),
            r is Ok ==> final(self).sigs() == old(self).sigs().insert(name, signature@),
            final(self).vars() == old(self).vars(),
            final(self).order() == old(self).order(),
            final(self).pos_spec() == old(self).pos_spec(),
            final(self).parent_spec() == old(self).parent_spec(),
            final(self).gen_spec() == old(self).gen_spec(),
            final(self).owner() == old(self).owner(),
    {
        if self.signatures.get(name).is_some() {
            Err(CompileError::DuplicateName(name))
        } else {
            self.signatures.insert(name, signature);
            Ok(())
        }
    }

    /// Declares a variable of `size` units and kind `kind` at the current
    /// cursor, and moves the cursor past it. Fails if the name is taken here,
    /// or if the frame would outgrow a machine word.
    pub fn add_var(&mut self, name: usize, size: usize, kind: Kind) -> (r: Result<(), CompileError>)
        requires
            old(self).wf(),
        ensures
            final(self).wf(),
            r == declare_var_outcome(old(self).model(), name, size as nat),
            r is Err ==> *final(self) == *old(self),
            !old(self).vars().contains_key(name) && old(self).pos_spec() + size <= usize::MAX ==> {
                &&& r is Ok
                &&& final(self).vars() == old(self).vars().insert(
                    name,
                    VarSlot { offset: old(self).pos_spec() as usize, size, kind },
                )
                &&& final(self).order() == old(self).order().push(name)
                &&& final(self).pos_spec() == old(self).pos_spec() + size
            },
            final(self).sigs() == old(self).sigs(),
            final(self).parent_spec() == old(self).parent_spec(),
            final(self).gen_spec() == old(self).gen_spec(),
            final(self).owner() == old(self).owner(),
    {
        if self.variables.get(name).is_some() {
            return Err(CompileError::DuplicateName(name));
        }
        if size > usize::MAX - self.pos {
            return Err(CompileError::FrameOverflow);
        }
        let slot = VarSlot { offset: self.pos, size, kind };
        let ghost old_vars = self.vars();
        let ghost old_order = self.order();
        self.variables.insert(name, slot);
        self.pos = self.pos + size;
        self.declared = Ghost(self.declared@.push(name));
        proof {
            let m = self.vars();
            let o = self.order();
            assert(!old_order.contains(name));
            lemma_frame_sum_insert_absent(old_vars, old_order, name, slot);
            assert(o.drop_last() =~= old_order);
            assert forall|i: int| 0 <= i < o.len() implies (#[trigger] m[o[i]]).offset == frame_sum(m, o.take(i)) by {
                if i < old_order.len() {
                    assert(o.take(i) =~= old_order.take(i));
                    assert(o[i] == old_order[i]);
                    assert(old_order.take(i).len() <= old_order.len());
                    lemma_frame_sum_prefix_insert_absent(old_vars, old_order, i, name, slot);
                } else {
                    assert(o.take(i) =~= old_order);
                }
            }
            assert forall|k: usize| m.contains_key(k) <==> o.contains(k) by {
                if o.contains(k) && k != name {
                    let j = choose|j: int| 0 <= j < o.len() && o[j] == k;
                    assert(old_order[j] == k);
                }
                if old_order.contains(k) {
                    let j = choose|j: int| 0 <= j < old_order.len() && old_order[j] == k;
                    assert(o[j] == k);
                }
                if k == name {
                    assert(o[o.len() - 1] == name);
                }
            }
        }
        Ok(())
    }
}

/// Outcome of declaring a variable of `size` units under `name` in `s`.
pub open spec fn declare_var_outcome(s: ScopeModel, name: usize, size: nat) -> Result<(), CompileError> {
    if s.vars.contains_key(name) {
        Err(CompileError::DuplicateName(name))
    } else if s.pos + size > usize::MAX {
        Err(CompileError::FrameOverflow)
    } else {
        Ok(())
    }
}

/// Outcome of declaring a function under `name` in `s`.
pub open spec fn declare_sig_outcome(s: ScopeModel, name: usize) -> Result<(), CompileError> {
    if s.sigs.contains_key(name) {
        Err(CompileError::DuplicateName(name))
    } else {
        Ok(())
    }
}

/// Whether a scope may end without `return`: it belongs to no function, or
/// its function returns `Void`.
pub open spec fn scope_is_void(s: ScopeModel) -> bool {
    match s.owner {
        None => true,
        Some(f) => !s.sigs.contains_key(f) || s.sigs[f].returns is Void,
    }
}

/// Adding a slot under a name not in `names` leaves their sum unchanged.
proof fn lemma_frame_sum_insert_absent(m: Map<usize, VarSlot>, names: Seq<usize>, k: usize, v: VarSlot)
    requires
        !names.contains(k),
    ensures
        frame_sum(m.insert(k, v), names) == frame_sum(m, names),
    decreases names.len(),
{
    if names.len() > 0 {
        assert(!names.drop_last().contains(k)) by {
            if names.drop_last().contains(k) {
                let j = choose|j: int| 0 <= j < names.drop_last().len() && names.drop_last()[j] == k;
                assert(names[j] == k);
            }
        }
        assert(names.last() != k) by {
            assert(names[names.len() - 1] == names.last());
        }
        lemma_frame_sum_insert_absent(m, names.drop_last(), k, v);
    }
}

proof fn lemma_frame_sum_prefix_insert_absent(m: Map<usize, VarSlot>, names: Seq<usize>, i: int, k: usize, v: VarSlot)
    requires
        !names.contains(k),
        0 <= i <= names.len(),
    ensures
        frame_sum(m.insert(k, v), names.take(i)) == frame_sum(m, names.take(i)),
{
    assert(!names.take(i).contains(k)) by {
        if names.take(i).contains(k) {
            let j = choose|j: int| 0 <= j < names.take(i).len() && names.take(i)[j] == k;
            assert(names[j] == k);
        }
    }
    lemma_frame_sum_insert_absent(m, names.take(i), k, v);
}


/// The variable that `name` denotes from scope `sid`: the innermost
/// declaration on the chain of enclosing scopes.
pub open spec fn var_of(s: Seq<ScopeModel>, sid: int, name: usize) -> Option<VarSlot>
    decreases sid,
{
    if sid < 0 || sid >= s.len() {
        None
    } else if s[sid].vars.contains_key(name) {
        Some(s[sid].vars[name])
    } else {
        match s[sid].parent {
            Some(p) => if p < sid {
                var_of(s, p as int, name)
            } else {
                None
            },
            None => None,
        }
    }
}

/// The function signature that `name` denotes from scope `sid`.
pub open spec fn sig_of(s: Seq<ScopeModel>, sid: int, name: usize) -> Option<SigView>
    decreases sid,
{
    if sid < 0 || sid >= s.len() {
        None
    } else if s[sid].sigs.contains_key(name) {
        Some(s[sid].sigs[name])
    } else {
        match s[sid].parent {
            Some(p) => if p < sid {
                sig_of(s, p as int, name)
            } else {
                None
            },
            None => None,
        }
    }
}

/// The function whose body encloses scope `sid`: the owner of the innermost
/// function scope on the chain.
pub open spec fn enclosing_fn(s: Seq<ScopeModel>, sid: int) -> Option<usize>
    decreases sid,
{
    if sid < 0 || sid >= s.len() {
        None
    } else if s[sid].owner is Some {
        s[sid].owner
    } else {
        match s[sid].parent {
            Some(p) => if p < sid {
                enclosing_fn(s, p as int)
            } else {
                None
            },
            None => None,
        }
    }
}

/// All scopes of one compilation, each naming its parent by index.
pub struct ScopeArena {
    scopes: Vec<Scope>,
}

impl ScopeArena {
    pub closed spec fn view(&self) -> Seq<Scope> {
        self.scopes@
    }

    /// Every scope is well formed and its parent comes before it.
    pub open spec fn wf(&self) -> bool {
        forall|i: int|
            0 <= i < self@.len() ==> (#[trigger] self@[i]).wf() && match self@[i].parent_spec() {
                Some(p) => p < i,
                None => true,
            }
    }

    pub fn new() -> (r: ScopeArena)
        ensures
            r.wf(),
            r@.len() == 0,
    {
        ScopeArena { scopes: Vec::new() }
    }

    pub fn len(&self) -> (r: usize)
        ensures
            r == self@.len(),
    {
        self.scopes.len()
    }

    pub fn get(&self, sid: usize) -> (r: &Scope)
        requires
            sid < self@.len(),
        ensures
            *r == self@[sid as int],
    {
        &self.scopes[sid]
    }

    /// Opens a scope under `parent`. Its depth is `gen` when given, else one
    /// more than the parent's, else 1.
    pub fn open(&mut self, parent: Option<usize>, gen: Option<usize>, name: Option<usize>) -> (r: Result<usize, CompileError>)
        requires
            old(self).wf(),
        ensures
            final(self).wf(),
            match parent {
                Some(p) => p >= old(self)@.len() ==> r == Err::<usize, CompileError>(CompileError::UnknownScope),
                None => true,
            },
            r is Err ==> final(self)@ == old(self)@,
            r is Ok ==> {
                &&& r->Ok_0 == old(self)@.len()
                &&& final(self)@.drop_last() == old(self)@
                &&& final(self)@.len() == old(self)@.len() + 1
                &&& final(self)@.last().parent_spec() == parent
                &&& final(self)@.last().owner() == name
                &&& final(self)@.last().pos_spec() == 0
                &&& final(self)@.last().vars().dom() =~= Set::<usize>::empty()
                &&& final(self)@.last().sigs().dom() =~= Set::<usize>::empty()
                &&& final(self)@.last().gen_spec() == match gen {
                    Some(g) => g as nat,
                    None => match parent {
                        Some(p) => old(self)@[p as int].gen_spec() + 1,
                        None => 1,
                    },
                }
            },
            r is Err ==> r == Err::<usize, CompileError>(CompileError::UnknownScope)
                || r == Err::<usize, CompileError>(CompileError::FrameOverflow),
            gen is Some || parent is None ==> (r is Ok <==> match parent {
                Some(p) => p < old(self)@.len(),
                None => true,
            }),
            gen is None && parent is Some ==> (r is Ok <==> parent->0 < old(self)@.len()
                && old(self)@[parent->0 as int].gen_spec() < usize::MAX),
            gen is None && parent is Some && parent->0 < old(self)@.len() && r is Err ==> r
                == Err::<usize, CompileError>(CompileError::FrameOverflow),
            arena_grows(old(self)@, final(self)@),
            r is Ok ==> models(final(self)@) == models(old(self)@).push(
                fresh_scope(parent, final(self)@.last().gen_spec(), name),
            ),
    {
        let g: usize = match gen {
            Some(g) => g,
            None => match parent {
                Some(p) => {
                    if p >= self.scopes.len() {
                        return Err(CompileError::UnknownScope);
                    }
                    let pg = self.scopes[p].gen();
                    if pg == usize::MAX {
                        return Err(CompileError::FrameOverflow);
                    }
                    pg + 1
                },
                None => 1,
            },
        };
        if let Some(p) = parent {
            if p >= self.scopes.len() {
                return Err(CompileError::UnknownScope);
            }
        }
        let id = self.scopes.len();
        let scope = Scope::new(parent, g, name);
        self.scopes.push(scope);
        proof {
            assert(self@.drop_last() =~= old(self)@);
            assert(self@.last().vars() =~= Map::empty());
            assert(self@.last().sigs() =~= Map::empty());
            assert(models(self@) =~= models(old(self)@).push(fresh_scope(parent, self@.last().gen_spec(), name)));
            lemma_grows_when_others_kept(old(self)@, self@, -1);
            assert forall|i: int| 0 <= i < self@.len() implies (#[trigger] self@[i]).wf() && match self@[i].parent_spec() {
                Some(p) => p < i,
                None => true,
            } by {
                if i < old(self)@.len() {
                    assert(self@[i] == old(self)@[i]);
                }
            }
        }
        Ok(id)
    }

    /// Declares a variable in scope `sid` (see `Scope::add_var`).
    pub fn add_var(&mut self, sid: usize, name: usize, size: usize, kind: Kind) -> (r: Result<(), CompileError>)
        requires
            old(self).wf(),
            sid < old(self)@.len(),
        ensures
            final(self).wf(),
            final(self)@.len() == old(self)@.len(),
            r == declare_var_outcome(old(self)@[sid as int].model(), name, size as nat),
            r is Err ==> final(self)@ == old(self)@,
            forall|j: int| 0 <= j < old(self)@.len() && j != sid ==> final(self)@[j] == old(self)@[j],
            r is Ok ==> {
                &&& final(self)@[sid as int].vars() == old(self)@[sid as int].vars().insert(
                    name,
                    VarSlot { offset: old(self)@[sid as int].pos_spec() as usize, size, kind },
                )
                &&& final(self)@[sid as int].order() == old(self)@[sid as int].order().push(name)
                &&& final(self)@[sid as int].pos_spec() == old(self)@[sid as int].pos_spec() + size
            },
            final(self)@[sid as int].sigs() == old(self)@[sid as int].sigs(),
            final(self)@[sid as int].parent_spec() == old(self)@[sid as int].parent_spec(),
            final(self)@[sid as int].gen_spec() == old(self)@[sid as int].gen_spec(),
            final(self)@[sid as int].owner() == old(self)@[sid as int].owner(),
            arena_grows(old(self)@, final(self)@),
            r is Ok ==> models(final(self)@) == models(old(self)@).update(
                sid as int,
                with_var(models(old(self)@)[sid as int], name, size as nat, kind),
            ),
    {
        let r = self.scopes[sid].add_var(name, size, kind);
        proof {
            lemma_grows_when_others_kept(old(self)@, self@, sid as int);
            if r is Ok {
                assert(models(self@) =~= models(old(self)@).update(
                    sid as int,
                    with_var(models(old(self)@)[sid as int], name, size as nat, kind),
                ));
            }
            if r is Err {
                assert(self@ =~= old(self)@);
            }
            assert forall|i: int| 0 <= i < self@.len() implies (#[trigger] self@[i]).wf() && match self@[i].parent_spec() {
                Some(p) => p < i,
                None => true,
            } by {
                if i != sid {
                    assert(self@[i] == old(self)@[i]);
                }
            }
        }
        r
    }

    /// Declares a function in scope `sid` (see `Scope::add_signature`).
    pub fn add_signature(&mut self, sid: usize, name: usize, signature: Signature) -> (r: Result<(), CompileError>)
        requires
            old(self).wf(),
            sid < old(self)@.len(),
        ensures
            final(self).wf(),
            final(self)@.len() == old(self)@.len(),
            r == declare_sig_outcome(old(self)@[sid as int].model(), name),
            r is Err ==> final(self)@ == old(self)@,
            forall|j: int| 0 <= j < old(self)@.len() && j != sid ==> final(self)@[j] == old(self)@[j],
            r is Ok ==> final(self)@[sid as int].sigs() == old(self)@[sid as int].sigs().insert(name, signature@),
            final(self)@[sid as int].vars() == old(self)@[sid as int].vars(),
            final(self)@[sid as int].order() == old(self)@[sid as int].order(),
            final(self)@[sid as int].pos_spec() == old(self)@[sid as int].pos_spec(),
            final(self)@[sid as int].parent_spec() == old(self)@[sid as int].parent_spec(),
            final(self)@[sid as int].gen_spec() == old(self)@[sid as int].gen_spec(),
            final(self)@[sid as int].owner() == old(self)@[sid as int].owner(),
            arena_grows(old(self)@, final(self)@),
            r is Ok ==> models(final(self)@) == models(old(self)@).update(
                sid as int,
                with_sig(models(old(self)@)[sid as int], name, signature@),
            ),
    {
        let ghost sv = signature@;
        let r = self.scopes[sid].add_signature(name, signature);
        proof {
            lemma_grows_when_others_kept(old(self)@, self@, sid as int);
            if r is Ok {
                assert(models(self@) =~= models(old(self)@).update(
                    sid as int,
                    with_sig(models(old(self)@)[sid as int], name, sv),
                ));
            }
            if r is Err {
                assert(self@ =~= old(self)@);
            }
            assert forall|i: int| 0 <= i < self@.len() implies (#[trigger] self@[i]).wf() && match self@[i].parent_spec() {
                Some(p) => p < i,
                None => true,
            } by {
                if i != sid {
                    assert(self@[i] == old(self)@[i]);
                }
            }
        }
        r
    }

    /// Looks `name` up as a variable from scope `sid` outward.
    pub fn get_var(&self, sid: usize, name: usize) -> (r: Result<VarSlot, CompileError>)
        ensures
            match var_of(models(self@), sid as int, name) {
                Some(v) => r == Ok::<VarSlot, CompileError>(v),
                None => r == Err::<VarSlot, CompileError>(CompileError::UnknownName(name)),
            },
    {
        if sid >= self.scopes.len() {
            return Err(CompileError::UnknownName(name));
        }
        let mut cur = sid;
        loop
            invariant
                cur < self@.len(),
                var_of(models(self@), sid as int, name) == var_of(models(self@), cur as int, name),
            decreases cur,
        {
            match self.scopes[cur].get_local_var(name) {
                Some(v) => return Ok(v),
                None => {},
            }
            match self.scopes[cur].parent() {
                Some(p) => {
                    if p < cur {
                        cur = p;
                    } else {
                        return Err(CompileError::UnknownName(name));
                    }
                },
                None => return Err(CompileError::UnknownName(name)),
            }
        }
    }

    /// Whether `name` denotes a variable from scope `sid`.
    pub fn has_var(&self, sid: usize, name: usize) -> (r: bool)
        ensures
            r == var_of(models(self@), sid as int, name) is Some,
    {
        self.get_var(sid, name).is_ok()
    }

    /// Looks `name` up as a function from scope `sid` outward.
    pub fn get_signature(&self, sid: usize, name: usize) -> (r: Result<Signature, CompileError>)
        ensures
            match sig_of(models(self@), sid as int, name) {
                Some(v) => r is Ok && r->Ok_0@ == v,
                None => r == Err::<Signature, CompileError>(CompileError::UnknownName(name)),
            },
    {
        if sid >= self.scopes.len() {
            return Err(CompileError::UnknownName(name));
        }
        let mut cur = sid;
        loop
            invariant
                cur < self@.len(),
                sig_of(models(self@), sid as int, name) == sig_of(models(self@), cur as int, name),
            decreases cur,
        {
            match self.scopes[cur].get_local_signature(name) {
                Some(v) => return Ok(v),
                None => {},
            }
            match self.scopes[cur].parent() {
                Some(p) => {
                    if p < cur {
                        cur = p;
                    } else {
                        return Err(CompileError::UnknownName(name));
                    }
                },
                None => return Err(CompileError::UnknownName(name)),
            }
        }
    }

    /// Whether `name` denotes a function from scope `sid`.
    pub fn has_signature(&self, sid: usize, name: usize) -> (r: bool)
        ensures
            r == sig_of(models(self@), sid as int, name) is Some,
    {
        self.get_signature(sid, name).is_ok()
    }

    /// The function whose body encloses scope `sid`, if any.
    pub fn enclosing_function(&self, sid: usize) -> (r: Option<usize>)
        ensures
            r == enclosing_fn(models(self@), sid as int),
    {
        if sid >= self.scopes.len() {
            return None;
        }
        let mut cur = sid;
        loop
            invariant
                cur < self@.len(),
                enclosing_fn(models(self@), sid as int) == enclosing_fn(models(self@), cur as int),
            decreases cur,
        {
            match self.scopes[cur].id() {
                Some(f) => return Some(f),
                None => {},
            }
            match self.scopes[cur].parent() {
                Some(p) => {
                    if p < cur {
                        cur = p;
                    } else {
                        return None;
                    }
                },
                None => return None,
            }
        }
    }
}

/// Later scopes may be added; the existing ones keep their place in the
/// tree and their depth, and keep every function they declare.
pub open spec fn arena_grows(a: Seq<Scope>, b: Seq<Scope>) -> bool {
    &&& a.len() <= b.len()
    &&& forall|i: int|
        0 <= i < a.len() ==> {
            &&& (#[trigger] b[i]).parent_spec() == a[i].parent_spec()
            &&& b[i].gen_spec() == a[i].gen_spec()
            &&& b[i].owner() == a[i].owner()
            &&& a[i].sigs().submap_of(b[i].sigs())
        }
}

/// Scopes grow when every old scope but `k` is kept and `k` keeps its
/// place, depth, owner and functions.
proof fn lemma_grows_when_others_kept(a: Seq<Scope>, b: Seq<Scope>, k: int)
    requires
        a.len() <= b.len(),
        forall|j: int| 0 <= j < a.len() && j != k ==> b[j] == a[j],
        0 <= k < a.len() ==> {
            &&& b[k].parent_spec() == a[k].parent_spec()
            &&& b[k].gen_spec() == a[k].gen_spec()
            &&& b[k].owner() == a[k].owner()
            &&& a[k].sigs().submap_of(b[k].sigs())
        },
    ensures
        arena_grows(a, b),
{
    assert forall|i: int| 0 <= i < a.len() implies {
        &&& (#[trigger] b[i]).parent_spec() == a[i].parent_spec()
        &&& b[i].gen_spec() == a[i].gen_spec()
        &&& b[i].owner() == a[i].owner()
        &&& a[i].sigs().submap_of(b[i].sigs())
    } by {
        if i != k {
            assert(b[i] == a[i]);
        }
    }
}

pub broadcast proof fn lemma_arena_grows_trans(a: Seq<Scope>, b: Seq<Scope>, c: Seq<Scope>)
    ensures
        #![trigger arena_grows(a, b), arena_grows(b, c)]
        arena_grows(a, b) && arena_grows(b, c) ==> arena_grows(a, c),
{
    if arena_grows(a, b) && arena_grows(b, c) {
        lemma_arena_grows_trans_inner(a, b, c);
    }
}

proof fn lemma_arena_grows_trans_inner(a: Seq<Scope>, b: Seq<Scope>, c: Seq<Scope>)
    requires
        arena_grows(a, b),
        arena_grows(b, c),
    ensures
        arena_grows(a, c),
{
    assert forall|i: int| 0 <= i < a.len() implies {
        &&& (#[trigger] c[i]).parent_spec() == a[i].parent_spec()
        &&& c[i].gen_spec() == a[i].gen_spec()
        &&& c[i].owner() == a[i].owner()
        &&& a[i].sigs().submap_of(c[i].sigs())
    } by {
        assert(b[i].parent_spec() == a[i].parent_spec());
        assert(c[i].parent_spec() == b[i].parent_spec());
        let sa = a[i].sigs();
        let sb = b[i].sigs();
        let sc = c[i].sigs();
        assert forall|k: usize| sa.dom().contains(k) implies #[trigger] sc.dom().contains(k) && sa[k] == sc[k] by {
            assert(sb.dom().contains(k));
        }
    }
}

pub broadcast group arena_growth {
    lemma_arena_grows_trans,
}


/// Every variable of a scope sits at the sum of the sizes of the variables
/// declared before it in that scope: offsets follow declaration order and are
/// never reused.
pub proof fn lemma_offsets_follow_declaration_order(s: Scope)
    requires
        s.wf(),
    ensures
        forall|i: int|
            0 <= i < s.order().len() ==> (#[trigger] s.vars()[s.order()[i]]).offset == frame_sum(
                s.vars(),
                s.order().take(i),
            ),
        forall|i: int, j: int|
            0 <= i < j < s.order().len() ==> #[trigger] s.vars()[s.order()[i]].offset
                + s.vars()[s.order()[i]].size <= #[trigger] s.vars()[s.order()[j]].offset,
{
    assert forall|i: int, j: int|
        0 <= i < j < s.order().len() implies #[trigger] s.vars()[s.order()[i]].offset
            + s.vars()[s.order()[i]].size <= #[trigger] s.vars()[s.order()[j]].offset by {
        let o = s.order();
        assert(o.take(i + 1).drop_last() =~= o.take(i));
        assert(o.take(i + 1).last() == o[i]);
        lemma_frame_sum_monotone(s.vars(), o, i + 1, j);
    }
}

proof fn lemma_frame_sum_monotone(m: Map<usize, VarSlot>, names: Seq<usize>, a: int, b: int)
    requires
        0 <= a <= b <= names.len(),
    ensures
        frame_sum(m, names.take(a)) <= frame_sum(m, names.take(b)),
    decreases b - a,
{
    if a < b {
        assert(names.take(b).drop_last() =~= names.take(b - 1));
        lemma_frame_sum_monotone(m, names, a, b - 1);
    }
}

/// Declaring a name a second time in the same scope fails with a duplicate
/// name error, for variables and for functions alike.
pub proof fn lemma_redeclaration_fails(
    s: Scope,
    after_var: Scope,
    after_sig: Scope,
    name: usize,
    slot: VarSlot,
    sig: SigView,
    size: nat,
)
    requires
        after_var.vars() == s.vars().insert(name, slot),
        after_sig.sigs() == s.sigs().insert(name, sig),
    ensures
        declare_var_outcome(after_var.model(), name, size) == Err::<(), CompileError>(CompileError::DuplicateName(name)),
        declare_sig_outcome(after_sig.model(), name) == Err::<(), CompileError>(CompileError::DuplicateName(name)),
{
}

/// A freshly opened scope accepts any name, whatever its ancestors declare:
/// inner declarations shadow outer ones.
pub proof fn lemma_fresh_scope_accepts_any_name(child: Scope, name: usize, size: nat)
    requires
        child.vars().dom() =~= Set::empty(),
        child.sigs().dom() =~= Set::empty(),
        child.pos_spec() == 0,
        size <= usize::MAX,
    ensures
        declare_var_outcome(child.model(), name, size) is Ok,
        declare_sig_outcome(child.model(), name) is Ok,
{
    assert(!child.vars().dom().contains(name));
    assert(!child.sigs().dom().contains(name));
}

} // verus!
