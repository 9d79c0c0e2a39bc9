use vstd::prelude::*;
use crate::token::{Literal, TokenType};

verus! {

/// Expression nodes. Sub-expressions are indices into an `ExprPool`; names
/// are interned symbols.
#[derive(Clone, Debug)]
pub enum Expr {
    Binary { left: usize, operator: TokenType, right: usize },
    Grouping { expression: usize },
    Literal { value: Literal },
    Unary { operator: TokenType, right: usize },
    Variable { name: usize },
    Assign { name: usize, value: usize },
    Logical { left: usize, operator: TokenType, right: usize },
    Call { callee: usize, arguments: Vec<usize> },
    Get { object: usize, name: usize },
    SetField { object: usize, name: usize, value: usize },
    This,
    Super { method: usize },
}

/// Every sub-expression of `e` has an index below `i`.
pub open spec fn children_below(e: Expr, i: int) -> bool {
    match e {
        Expr::Binary { left, right, .. } => left < i && right < i,
        Expr::Grouping { expression } => expression < i,
        Expr::Unary { right, .. } => right < i,
        Expr::Assign { value, .. } => value < i,
        Expr::Logical { left, right, .. } => left < i && right < i,
        Expr::Call { callee, arguments } => callee < i && forall|j: int|
            0 <= j < arguments@.len() ==> #[trigger] arguments@[j] < i,
        Expr::Get { object, .. } => object < i,
        Expr::SetField { object, value, .. } => object < i && value < i,
        _ => true,
    }
}

/// Expressions of one program, each stored after its sub-expressions.
pub struct ExprPool {
    exprs: Vec<Expr>,
}

impl ExprPool {
    pub closed spec fn view(&self) -> Seq<Expr> {
        self.exprs@
    }

    /// Every expression comes after its sub-expressions.
    pub open spec fn wf(&self) -> bool {
        forall|i: int| 0 <= i < self@.len() ==> children_below(#[trigger] self@[i], i)
    }

    #[verifier::type_invariant]
    spec fn inv(&self) -> bool {
        self.wf()
    }

    /// Every pool is well formed.
    pub(crate) fn well_formed(&self)
        ensures
            self.wf(),
    {
        proof {
            use_type_invariant(self);
        }
    }

    pub fn new() -> (r: ExprPool)
        ensures
            r.wf(),
            r@.len() == 0,
    {
        ExprPool { exprs: Vec::new() }
    }

    pub fn len(&self) -> (r: usize)
        ensures
            r == self@.len(),
    {
        self.exprs.len()
    }

    /// Appends `e` and returns its index; `None`, with the pool unchanged,
    /// when `e` refers to an expression not yet in the pool.
    pub fn add(&mut self, e: Expr) -> (r: Option<usize>)
        ensures
            r is Some <==> children_below(e, old(self)@.len() as int),
            r is Some ==> r->0 == old(self)@.len() && final(self)@ == old(self)@.push(e),
            r is None ==> final(self)@ == old(self)@,
    {
        proof {
            use_type_invariant(&*self);
        }
        let n = self.exprs.len();
        let ok = match &e {
            Expr::Binary { left, right, .. } => *left < n && *right < n,
            Expr::Grouping { expression } => *expression < n,
            Expr::Unary { right, .. } => *right < n,
            Expr::Assign { value, .. } => *value < n,
            Expr::Logical { left, right, .. } => *left < n && *right < n,
            Expr::Call { callee, arguments } => {
                let mut all = *callee < n;
                let mut j: usize = 0;
                while j < arguments.len()
                    invariant
                        j <= arguments@.len(),
                        all == (*callee < n && forall|k: int| 0 <= k < j ==> #[trigger] arguments@[k] < n),
                    decreases arguments@.len() - j,
                {
                    if arguments[j] >= n {
                        all = false;
                    }
                    j = j + 1;
                }
                all
            },
            Expr::Get { object, .. } => *object < n,
            Expr::SetField { object, value, .. } => *object < n && *value < n,
            _ => true,
        };
        if !ok {
            return None;
        }
        let mut v: Vec<Expr> = Vec::new();
        std::mem::swap(&mut v, &mut self.exprs);
        v.push(e);
        proof {
            assert forall|i: int| 0 <= i < v@.len() implies children_below(#[trigger] v@[i], i) by {
                if i < n {
                    assert(v@[i] == old(self)@[i]);
                }
            }
        }
        *self = ExprPool { exprs: v };
        Some(n)
    }

    pub fn get_expr(&self, i: usize) -> (r: &Expr)
        requires
            i < self@.len(),
        ensures
            *r == self@[i as int],
    {
        &self.exprs[i]
    }
}

/// Display names of interned symbols: symbol `i` is the `i`-th name.
pub struct SymbolTable {
    names: Vec<String>,
}

impl SymbolTable {
    pub closed spec fn view(&self) -> Seq<Seq<char>> {
        self.names@.map_values(|s: String| s@)
    }

    pub fn new() -> (r: SymbolTable)
        ensures
            r@.len() == 0,
    {
        SymbolTable { names: Vec::new() }
    }

    /// Adds a name and returns its symbol.
    pub fn add(&mut self, name: String) -> (r: usize)
        ensures
            r == old(self)@.len(),
            final(self)@ == old(self)@.push(name@),
    {
        let r = self.names.len();
        self.names.push(name);
        proof {
            assert(self@ =~= old(self)@.push(name@));
        }
        r
    }

    /// The display name of `sym`; empty for an unknown symbol.
    pub fn resolve(&self, sym: usize) -> (r: &str)
        ensures
            sym < self@.len() ==> r@ == self@[sym as int],
            sym >= self@.len() ==> r@.len() == 0,
    {
        if sym < self.names.len() {
            self.names[sym].as_str()
        } else {
            proof {
                reveal_strlit("");
            }
            ""
        }
    }
}

} // verus!
