use vstd::prelude::*;
use crate::kind::Kind;

verus! {

/// A function parameter: its name and declared kind.
#[derive(Clone, Copy, Debug, PartialEq, Eq, Structural)]
pub struct Param {
    pub name: usize,
    pub kind: Kind,
}

/// Statements. Expressions are indices into an `ExprPool`; names are
/// interned symbols.
#[derive(Debug)]
pub enum Stmt {
    Expression { expression: usize },
    Print { expression: usize },
    Var { name: usize, initializer: Option<usize> },
    Block { statements: Vec<Stmt> },
    If { condition: usize, then_branch: Box<Stmt>, else_branch: Option<Box<Stmt>> },
    While { condition: usize, body: Box<Stmt> },
    Function { name: usize, params: Vec<Param>, return_type: Kind, body: Vec<Stmt> },
    Return { value: Option<usize> },
    Class { name: usize, superclass: Option<usize>, methods: Vec<Stmt> },
}

impl Stmt {
    /// The expression an expression, print or variable statement carries.
    pub fn expression(&self) -> (r: Option<usize>)
        requires
            self is Expression || self is Print || self is Var,
        ensures
            match *self {
                Stmt::Expression { expression } => r == Some(expression),
                Stmt::Print { expression } => r == Some(expression),
                Stmt::Var { initializer, .. } => r == initializer,
                _ => false,
            },
    {
        match self {
            Stmt::Expression { expression } => Some(*expression),
            Stmt::Print { expression } => Some(*expression),
            Stmt::Var { initializer, .. } => *initializer,
            _ => None,
        }
    }
}

} // verus!
