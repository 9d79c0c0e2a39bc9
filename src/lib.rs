//! Code generation from a parsed scripting-language tree to a textual
//! intermediate language for a stack machine, with lexical scopes,
//! stack-frame layout and a static check of value kinds.

mod emit;
pub mod error;
pub mod expr;
pub mod interpreter;
pub mod kind;
pub mod scope;
pub mod stmt;
pub mod tables;
pub mod token;
pub mod typing;

pub use error::{CompileError, LoxError};
pub use interpreter::Interpreter;
pub use kind::Kind;
pub use expr::{Expr, ExprPool, SymbolTable};
pub use stmt::{Param, Stmt};
pub use scope::{Scope, ScopeArena, Signature, VarSlot};
pub use token::{ErrorToken, Literal, Num, Token, TokenType};
