use vstd::prelude::*;
use vstd::string::StringExecFns;
use crate::expr::SymbolTable;
use crate::typing::name_text;

verus! {

/// Why code generation stopped. Names are interned symbols.
#[derive(Clone, Copy, Debug, PartialEq, Eq, Structural)]
pub enum CompileError {
    /// A variable or function of this name is already declared in the scope.
    DuplicateName(usize),
    /// No variable or function of this name is visible.
    UnknownName(usize),
    /// Only function definitions may stand at file scope.
    TopLevelStatementNotAllowed,
    /// `print` was given something that is neither a string nor a variable.
    ExpectedString,
    /// A variable declaration without an initializer.
    MissingInitializer,
    /// The two operands of a binary operator have different kinds.
    OperandTypeMismatch,
    /// An assignment whose value kind differs from the variable's kind.
    TypeMismatch,
    /// Assigning a value of kind `Void`.
    VoidAssignment,
    /// Assigning a function reference.
    FunctionAssignment,
    /// A string literal with a non-ASCII character.
    NonAsciiString,
    /// Calling something that is not a function reference.
    NotCallable,
    /// The argument count differs from the callee's arity.
    ArityMismatch,
    /// An argument's kind differs from the declared parameter kind.
    ArgumentTypeMismatch,
    /// The arguments occupy more than 255 stack units.
    ArgumentsTooLarge,
    /// A returned kind differs from the function's declared return kind.
    ReturnTypeMismatch,
    /// A `return` outside any function body.
    ReturnOutsideFunction,
    /// A non-`Void` function body that does not end in `return`.
    MissingReturn,
    /// A construct the generator does not support.
    Unsupported,
    /// An expression index that is not in the pool.
    UnknownExpression,
    /// A scope index that is not in the arena.
    UnknownScope,
    /// A frame whose size no longer fits in a machine word.
    FrameOverflow,
}

/// Errors reported to the driver.
#[derive(Clone, Debug)]
pub enum LoxError {
    Error(String),
    RuntimeError(String),
    CompilationError(String),
}

/// The message of each error.
pub open spec fn error_text(e: CompileError) -> Seq<char> {
    match e {
        CompileError::DuplicateName(_) => "Given name already exists in this scope."@,
        CompileError::UnknownName(_) => "Couldn't find name in the current scope."@,
        CompileError::TopLevelStatementNotAllowed => "Top level statements are not allowed."@,
        CompileError::ExpectedString => "Expected string"@,
        CompileError::MissingInitializer => "Expected initializer."@,
        CompileError::OperandTypeMismatch => "Operand type missmatch."@,
        CompileError::TypeMismatch => "Type missmatch."@,
        CompileError::VoidAssignment => "Void assignation is not permitted."@,
        CompileError::FunctionAssignment => "Can't assign functions to things."@,
        CompileError::NonAsciiString => "Only ASCII strings are accepted."@,
        CompileError::NotCallable => "Attempt to call non-function value."@,
        CompileError::ArityMismatch => "Missmatching parameter count."@,
        CompileError::ArgumentTypeMismatch => "Missmatching parameter types."@,
        CompileError::ArgumentsTooLarge => "Parameter size is too big (max 255)"@,
        CompileError::ReturnTypeMismatch => "Return type doesn't match with function signature."@,
        CompileError::ReturnOutsideFunction => "Return outside of a function body."@,
        CompileError::MissingReturn => "Expected return at the end of function body."@,
        CompileError::Unsupported => "Construct is not supported yet."@,
        CompileError::UnknownExpression => "Unknown expression."@,
        CompileError::UnknownScope => "Unknown scope."@,
        CompileError::FrameOverflow => "Stack frame is too large."@,
    }
}

impl CompileError {
    /// The message text of the error, without the names it concerns.
    pub fn message(&self) -> (r: &'static str)
        ensures
            r@ == error_text(*self),
    {
        let r = match self {
            CompileError::DuplicateName(_) => "Given name already exists in this scope.",
            CompileError::UnknownName(_) => "Couldn't find name in the current scope.",
            CompileError::TopLevelStatementNotAllowed => "Top level statements are not allowed.",
            CompileError::ExpectedString => "Expected string",
            CompileError::MissingInitializer => "Expected initializer.",
            CompileError::OperandTypeMismatch => "Operand type missmatch.",
            CompileError::TypeMismatch => "Type missmatch.",
            CompileError::VoidAssignment => "Void assignation is not permitted.",
            CompileError::FunctionAssignment => "Can't assign functions to things.",
            CompileError::NonAsciiString => "Only ASCII strings are accepted.",
            CompileError::NotCallable => "Attempt to call non-function value.",
            CompileError::ArityMismatch => "Missmatching parameter count.",
            CompileError::ArgumentTypeMismatch => "Missmatching parameter types.",
            CompileError::ArgumentsTooLarge => "Parameter size is too big (max 255)",
            CompileError::ReturnTypeMismatch => "Return type doesn't match with function signature.",
            CompileError::ReturnOutsideFunction => "Return outside of a function body.",
            CompileError::MissingReturn => "Expected return at the end of function body.",
            CompileError::Unsupported => "Construct is not supported yet.",
            CompileError::UnknownExpression => "Unknown expression.",
            CompileError::UnknownScope => "Unknown scope.",
            CompileError::FrameOverflow => "Stack frame is too large.",
        };
        proof {
            reveal_strlit("Given name already exists in this scope.");
            reveal_strlit("Couldn't find name in the current scope.");
            reveal_strlit("Top level statements are not allowed.");
            reveal_strlit("Expected string");
            reveal_strlit("Expected initializer.");
            reveal_strlit("Operand type missmatch.");
            reveal_strlit("Type missmatch.");
            reveal_strlit("Void assignation is not permitted.");
            reveal_strlit("Can't assign functions to things.");
            reveal_strlit("Only ASCII strings are accepted.");
            reveal_strlit("Attempt to call non-function value.");
            reveal_strlit("Missmatching parameter count.");
            reveal_strlit("Missmatching parameter types.");
            reveal_strlit("Parameter size is too big (max 255)");
            reveal_strlit("Return type doesn't match with function signature.");
            reveal_strlit("Return outside of a function body.");
            reveal_strlit("Expected return at the end of function body.");
            reveal_strlit("Construct is not supported yet.");
            reveal_strlit("Unknown expression.");
            reveal_strlit("Unknown scope.");
            reveal_strlit("Stack frame is too large.");
        }
        r
    }

    /// The error as the driver reports it.
    pub fn to_lox_error(&self) -> (r: LoxError)
        ensures
            r is CompilationError && r->CompilationError_0@ == error_text(*self),
    {
        LoxError::CompilationError(String::from_str(self.message()))
    }
}

/// The message of `e` with the name it concerns spelled out.
pub open spec fn describe_text(e: CompileError, names: Seq<Seq<char>>) -> Seq<char> {
    match e {
        CompileError::DuplicateName(n) => "Given name '"@ + name_text(names, n) + "' already exists in this scope."@,
        CompileError::UnknownName(n) => "Couldn't find '"@ + name_text(names, n) + "' in the current scope."@,
        _ => error_text(e),
    }
}

impl CompileError {
    /// The message, with the name a duplicate or unknown name error concerns
    /// resolved through `names`.
    pub fn describe(&self, names: &SymbolTable) -> (r: String)
        ensures
            r@ == describe_text(*self, names@),
    {
        match self {
            CompileError::DuplicateName(n) => {
                let mut r = String::from_str("Given name '");
                r.append(names.resolve(*n));
                r.append("' already exists in this scope.");
                r
            },
            CompileError::UnknownName(n) => {
                let mut r = String::from_str("Couldn't find '");
                r.append(names.resolve(*n));
                r.append("' in the current scope.");
                r
            },
            _ => String::from_str(self.message()),
        }
    }
}

impl LoxError {
    /// The text the driver reports for the error.
    pub fn text(&self) -> (r: String)
        ensures
            r@ == lox_error_text(*self),
    {
        let (prefix, msg) = match self {
            LoxError::Error(m) => ("Error: ", m),
            LoxError::RuntimeError(m) => ("Runtime Error: ", m),
            LoxError::CompilationError(m) => ("Error while compiling lox file: ", m),
        };
        let mut r = String::from_str(prefix);
        r.append(msg.as_str());
        proof {
            reveal_strlit("Error: ");
            reveal_strlit("Runtime Error: ");
            reveal_strlit("Error while compiling lox file: ");
        }
        r
    }
}

/// The reported text of a driver error: a prefix naming its class, then the
/// message.
pub open spec fn lox_error_text(e: LoxError) -> Seq<char> {
    match e {
        LoxError::Error(m) => "Error: "@ + m@,
        LoxError::RuntimeError(m) => "Runtime Error: "@ + m@,
        LoxError::CompilationError(m) => "Error while compiling lox file: "@ + m@,
    }
}

} // verus!
