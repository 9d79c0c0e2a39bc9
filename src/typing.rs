use vstd::prelude::*;
use crate::emit::{line, nat_text, decimal_text};
use crate::error::CompileError;
use crate::expr::Expr;
use crate::stmt::{Param, Stmt};
use crate::kind::{Kind, kind_size, same_shape, kind_name};
use crate::scope::{VarSlot, ScopeModel, fresh_scope, with_var, with_sig, scope_is_void, SigView, var_of, sig_of, enclosing_fn, declare_var_outcome};
use crate::token::{Literal, TokenType, MAX_SCALE};

verus! {

/// Largest total size, in stack units, of the arguments of one call.
pub const MAX_ARGS_SIZE: usize = 255;

/// Kind of a literal, or why it cannot be compiled.
pub open spec fn literal_result(v: Literal) -> Result<Kind, CompileError> {
    match v {
        Literal::Str(s) => if !vstd::utf8::is_ascii_chars(s@) {
            Err(CompileError::NonAsciiString)
        } else if (s@.len() as usize) + 4 > usize::MAX {
            Err(CompileError::FrameOverflow)
        } else {
            Ok(Kind::String)
        },
        Literal::Num(n) => if n.scale > MAX_SCALE {
            Err(CompileError::Unsupported)
        } else {
            Ok(Kind::Number)
        },
        Literal::True => Ok(Kind::Boolean),
        Literal::False => Ok(Kind::Boolean),
        Literal::Void => Err(CompileError::Unsupported),
    }
}

/// Kind of expression `idx` seen from scope `sid`, or the first error met
/// while checking it (operands are checked left to right).
pub open spec fn expr_result(pool: Seq<Expr>, sc: Seq<ScopeModel>, sid: int, idx: int) -> Result<Kind, CompileError>
    decreases idx, 1int, 0int,
{
    if idx < 0 || idx >= pool.len() {
        Err(CompileError::UnknownExpression)
    } else {
        match pool[idx] {
            Expr::Binary { left, operator, right } => if left >= idx || right >= idx {
                Err(CompileError::UnknownExpression)
            } else {
                match expr_result(pool, sc, sid, left as int) {
                    Err(e) => Err(e),
                    Ok(l) => match expr_result(pool, sc, sid, right as int) {
                        Err(e) => Err(e),
                        Ok(r) => if !same_shape(l, r) {
                            Err(CompileError::OperandTypeMismatch)
                        } else if operator != TokenType::Plus {
                            Err(CompileError::Unsupported)
                        } else {
                            Ok(l)
                        },
                    },
                }
            },
            Expr::Grouping { expression } => if expression >= idx {
                Err(CompileError::UnknownExpression)
            } else {
                expr_result(pool, sc, sid, expression as int)
            },
            Expr::Literal { value } => literal_result(value),
            Expr::Unary { .. } => Ok(Kind::Void),
            Expr::Logical { .. } => Ok(Kind::Void),
            Expr::Variable { name } => match var_of(sc, sid, name) {
                Some(v) => Ok(v.kind),
                None => if sig_of(sc, sid, name) is Some {
                    Ok(Kind::FunctionRef(name))
                } else {
                    Err(CompileError::UnknownName(name))
                },
            },
            Expr::Assign { name, value } => if value >= idx {
                Err(CompileError::UnknownExpression)
            } else {
                match var_of(sc, sid, name) {
                    None => Err(CompileError::UnknownName(name)),
                    Some(v) => match expr_result(pool, sc, sid, value as int) {
                        Err(e) => Err(e),
                        Ok(k) => if !same_shape(v.kind, k) {
                            Err(CompileError::TypeMismatch)
                        } else {
                            match k {
                                Kind::Void => Err(CompileError::VoidAssignment),
                                Kind::FunctionRef(_) => Err(CompileError::FunctionAssignment),
                                _ => Ok(Kind::Void),
                            }
                        },
                    },
                }
            },
            Expr::Call { callee, arguments } => if callee >= idx {
                Err(CompileError::UnknownExpression)
            } else {
                match expr_result(pool, sc, sid, callee as int) {
                    Err(e) => Err(e),
                    Ok(Kind::FunctionRef(f)) => match sig_of(sc, sid, f) {
                        None => Err(CompileError::UnknownName(f)),
                        Some(sig) => if sig.arity != arguments@.len() {
                            Err(CompileError::ArityMismatch)
                        } else {
                            match args_result(pool, sc, sid, idx, arguments@, sig.params) {
                                Err(e) => Err(e),
                                Ok(_) => Ok(sig.returns),
                            }
                        },
                    },
                    Ok(_) => Err(CompileError::NotCallable),
                }
            },
            _ => Err(CompileError::Unsupported),
        }
    }
}

/// Total size of the arguments `args` checked in order against the
/// parameter kinds `params`, or the first error met. `bound` is the index of
/// the call; arguments stand below it.
pub open spec fn args_result(
    pool: Seq<Expr>,
    sc: Seq<ScopeModel>,
    sid: int,
    bound: int,
    args: Seq<usize>,
    params: Seq<Kind>,
) -> Result<nat, CompileError>
    decreases bound, 0int, args.len(),
{
    if args.len() == 0 {
        Ok(0)
    } else {
        match args_result(pool, sc, sid, bound, args.drop_last(), params) {
            Err(e) => Err(e),
            Ok(sz) => {
                let j = args.len() - 1;
                if args[j] >= bound {
                    Err(CompileError::UnknownExpression)
                } else {
                    match expr_result(pool, sc, sid, args[j] as int) {
                        Err(e) => Err(e),
                        Ok(k) => if j >= params.len() || !same_shape(k, params[j]) {
                            Err(CompileError::ArgumentTypeMismatch)
                        } else if sz + kind_size(k) > MAX_ARGS_SIZE {
                            Err(CompileError::ArgumentsTooLarge)
                        } else {
                            Ok(sz + kind_size(k))
                        },
                    }
                }
            },
        }
    }
}

/// Whether expression `e` is a reference to a variable visible from `sid`.
pub open spec fn is_var_ref(pool: Seq<Expr>, sc: Seq<ScopeModel>, sid: int, e: int) -> bool {
    0 <= e < pool.len() && match pool[e] {
        Expr::Variable { name } => var_of(sc, sid, name) is Some,
        _ => false,
    }
}

/// Outcome of `print e`: the operand must be a string or a variable.
pub open spec fn print_result(pool: Seq<Expr>, sc: Seq<ScopeModel>, sid: int, e: int) -> Result<(), CompileError> {
    match expr_result(pool, sc, sid, e) {
        Err(x) => Err(x),
        Ok(k) => if k is String || is_var_ref(pool, sc, sid, e) {
            Ok(())
        } else {
            Err(CompileError::ExpectedString)
        },
    }
}

/// Outcome of `return value`: the returned kind must have the shape of the
/// enclosing function's declared return kind.
pub open spec fn return_result(pool: Seq<Expr>, sc: Seq<ScopeModel>, sid: int, value: Option<usize>) -> Result<(), CompileError> {
    let k = match value {
        None => Ok(Kind::Void),
        Some(e) => expr_result(pool, sc, sid, e as int),
    };
    match k {
        Err(x) => Err(x),
        Ok(k) => match enclosing_fn(sc, sid) {
            None => Err(CompileError::ReturnOutsideFunction),
            Some(f) => match sig_of(sc, sid, f) {
                None => Err(CompileError::UnknownName(f)),
                Some(sig) => if same_shape(sig.returns, k) {
                    Ok(())
                } else {
                    Err(CompileError::ReturnTypeMismatch)
                },
            },
        },
    }
}

/// Outcome of `var name = init`.
pub open spec fn var_decl_result(pool: Seq<Expr>, sc: Seq<ScopeModel>, sid: int, name: usize, init: Option<usize>) -> Result<(), CompileError> {
    match init {
        None => Err(CompileError::MissingInitializer),
        Some(e) => match expr_result(pool, sc, sid, e as int) {
            Err(x) => Err(x),
            Ok(k) => declare_var_outcome(sc[sid], name, kind_size(k)),
        },
    }
}


/// `r` with a successful outcome replaced by `v`.
pub open spec fn ok_as<T, U>(r: Result<T, CompileError>, v: U) -> Result<U, CompileError> {
    match r {
        Ok(_) => Ok(v),
        Err(e) => Err(e),
    }
}

/// Declares the parameters `ps[i..]` in order in the function scope `fs`;
/// the outcome and the scopes after.
pub open spec fn params_run(m: Seq<ScopeModel>, fs: int, ps: Seq<Param>, i: int) -> (Result<(), CompileError>, Seq<ScopeModel>)
    decreases ps.len() - i,
{
    if i < 0 || i >= ps.len() {
        (Ok(()), m)
    } else {
        match declare_var_outcome(m[fs], ps[i].name, kind_size(ps[i].kind)) {
            Err(e) => (Err(e), m),
            Ok(_) => params_run(
                m.update(fs, with_var(m[fs], ps[i].name, kind_size(ps[i].kind), ps[i].kind)),
                fs,
                ps,
                i + 1,
            ),
        }
    }
}

/// The signature a function definition declares.
pub open spec fn sig_of_definition(params: Seq<Param>, return_type: Kind) -> SigView {
    SigView { arity: params.len(), returns: return_type, params: params.map_values(|p: Param| p.kind) }
}

/// Registers a function's signature in the enclosing scope `sid`, then in
/// its own scope `fs`: the outcome and the scopes after.
pub open spec fn register_outcome(m: Seq<ScopeModel>, sid: int, fs: int, name: usize, sig: SigView) -> (Result<(), CompileError>, Seq<ScopeModel>) {
    if m[sid].sigs.contains_key(name) {
        (Err(CompileError::DuplicateName(name)), m)
    } else {
        let m3 = m.update(sid, with_sig(m[sid], name, sig));
        if m3[fs].sigs.contains_key(name) {
            (Err(CompileError::DuplicateName(name)), m3)
        } else {
            (Ok(()), m3.update(fs, with_sig(m3[fs], name, sig)))
        }
    }
}

/// Outcome of one statement in scope `sid` (`Ok(true)` for a `return`,
/// which ends its list) and the scopes after it.
pub open spec fn stmt_result(pool: Seq<Expr>, m: Seq<ScopeModel>, sid: int, s: Stmt) -> (Result<bool, CompileError>, Seq<ScopeModel>)
    decreases s, 0int,
{
    match s {
        Stmt::Expression { expression } => (ok_as(expr_result(pool, m, sid, expression as int), false), m),
        Stmt::Print { expression } => (ok_as(print_result(pool, m, sid, expression as int), false), m),
        Stmt::Var { name, initializer } => match var_decl_result(pool, m, sid, name, initializer) {
            Err(e) => (Err(e), m),
            Ok(_) => {
                let k = expr_result(pool, m, sid, initializer->0 as int)->Ok_0;
                (Ok(false), m.update(sid, with_var(m[sid], name, kind_size(k), k)))
            },
        },
        Stmt::Block { statements } => if m[sid].gen >= usize::MAX {
            (Err(CompileError::FrameOverflow), m)
        } else {
            let b = m.len() as int;
            let m1 = m.push(fresh_scope(Some(sid as usize), m[sid].gen + 1, None));
            let res = stmts_result(pool, m1, b, statements@);
            (ok_as(res.0, false), res.1)
        },
        Stmt::Function { name, params, return_type, body } => if m[sid].gen >= usize::MAX {
            (Err(CompileError::FrameOverflow), m)
        } else {
            let fs = m.len() as int;
            let m1 = m.push(fresh_scope(Some(sid as usize), m[sid].gen + 1, Some(name)));
            let pr = params_run(m1, fs, params@, 0);
            let m2 = pr.1;
            let sig = sig_of_definition(params@, return_type);
            if pr.0 is Err {
                (Err(pr.0->Err_0), m2)
            } else {
                let reg = register_outcome(m2, sid, fs, name, sig);
                if reg.0 is Err {
                    (Err(reg.0->Err_0), reg.1)
                } else {
                    let res = stmts_result(pool, reg.1, fs, body@);
                    (ok_as(res.0, false), res.1)
                }
            }
        },
        Stmt::Return { value } => (ok_as(return_result(pool, m, sid, value), true), m),
        Stmt::If { .. } => (Ok(false), m),
        Stmt::While { .. } => (Ok(false), m),
        Stmt::Class { .. } => (Err(CompileError::Unsupported), m),
    }
}

/// Runs the statements `ss[i..]` in scope `sid` until one fails or returns.
/// At file scope (depth 1 or less) only function definitions are allowed.
pub open spec fn list_run(pool: Seq<Expr>, m: Seq<ScopeModel>, sid: int, ss: Seq<Stmt>, i: int) -> (Result<bool, CompileError>, Seq<ScopeModel>)
    decreases ss, ss.len() - i,
{
    if i < 0 || i >= ss.len() {
        (Ok(false), m)
    } else if m[sid].gen <= 1 && !(ss[i] is Function) {
        (Err(CompileError::TopLevelStatementNotAllowed), m)
    } else {
        let res = stmt_result(pool, m, sid, ss[i]);
        match res.0 {
            Err(e) => (Err(e), res.1),
            Ok(true) => (Ok(true), res.1),
            Ok(false) => list_run(pool, res.1, sid, ss, i + 1),
        }
    }
}

/// Outcome of a statement list in scope `sid`, and the scopes after it: the
/// first error, or success when a `return` ended the list or the scope may
/// end without one.
pub open spec fn stmts_result(pool: Seq<Expr>, m: Seq<ScopeModel>, sid: int, ss: Seq<Stmt>) -> (Result<(), CompileError>, Seq<ScopeModel>)
    decreases ss, ss.len() + 1,
{
    let res = list_run(pool, m, sid, ss, 0);
    match res.0 {
        Err(e) => (Err(e), res.1),
        Ok(true) => (Ok(()), res.1),
        Ok(false) => if scope_is_void(res.1[sid]) {
            (Ok(()), res.1)
        } else {
            (Err(CompileError::MissingReturn), res.1)
        },
    }
}

/// Code that loads variable `v` at depth `d`.
pub open spec fn var_load_code(d: nat, name: Seq<char>, v: VarSlot) -> Seq<char> {
    line(d, "#var ref "@ + name + "#"@) + line(d, "mov &bp &ebx"@) + (if v.offset > 0 {
        line(d, "inc %i &ebx "@ + nat_text(v.offset as nat))
    } else {
        Seq::empty()
    }) + (if v.size == 1 {
        line(d, "rda %b"@)
    } else {
        line(d, "rda %i"@)
    })
}

/// Address of the variable at `offset` in `&ebx`.
pub open spec fn var_address_code(d: nat, offset: usize) -> Seq<char> {
    line(d, "mov &bp &ebx"@) + (if offset > 0 {
        line(d, "inc %i &ebx "@ + nat_text(offset as nat))
    } else {
        Seq::empty()
    })
}

/// Code that frees the heap block of the string whose handle is at the
/// address in `&ebx`.
pub open spec fn free_code(d: nat) -> Seq<char> {
    line(d, "rda %i"@) + line(d, "mov &ebx"@) + line(d, "pop %i"@) + line(d, "rda %i"@) + line(d, "mov &ecx"@) + line(
        d,
        "pop %i"@,
    ) + line(d, "inc %i &ecx 4"@) + line(d, "del"@)
}

/// Code that stores a value of kind `k` into the variable at `offset`; a
/// string's old heap block is freed first.
pub open spec fn store_code(d: nat, offset: usize, k: Kind) -> Seq<char> {
    if k is String {
        line(d, "#string assignment#"@) + var_address_code(d, offset) + free_code(d) + var_address_code(d, offset)
            + line(d, "ldc %i"@) + line(d, "pop %i"@)
    } else if kind_size(k) == 1 {
        line(d, "#assignment#"@) + var_address_code(d, offset) + line(d, "ldc %b"@) + line(d, "pop %b"@)
    } else {
        line(d, "#assignment#"@) + var_address_code(d, offset) + line(d, "ldc %i"@) + line(d, "pop %i"@)
    }
}

/// Code of a string literal `s` at depth `d`: its bytes, then a heap block
/// holding its length and bytes, whose address is loaded.
pub open spec fn string_code(d: nat, s: Seq<char>) -> Seq<char> {
    let n = (s.len() as usize) as nat;
    line(d, "#str literal#"@) + line(d, "raw "@ + nat_text(n) + " \""@ + s + "\" ;"@) + line(
        d,
        "mov "@ + nat_text(n + 4) + " &ecx"@,
    ) + line(d, "alc"@) + line(d, "mov &ecx &eax"@) + line(d, "sub %i &sp &eax"@) + line(d, "mcp %s %h"@) + line(
        d,
        "dcr %i &sp "@ + nat_text(n + 4),
    ) + line(d, "rda &ebx"@)
}

/// The code expression `idx` writes at the depth of scope `sid`, whether
/// it compiles or not: operands before their operator, arguments in order
/// before the call. A failing check writes nothing more; what sub-expressions
/// wrote before it stays.
#[verifier::opaque]
pub open spec fn expr_code(pool: Seq<Expr>, sc: Seq<ScopeModel>, names: Seq<Seq<char>>, sid: int, idx: int) -> Seq<char>
    decreases idx, 1int, 0int,
{
    let d = sc[sid].gen;
    if idx < 0 || idx >= pool.len() {
        Seq::empty()
    } else {
        match pool[idx] {
            Expr::Binary { left, operator, right } => if left >= idx || right >= idx {
                Seq::empty()
            } else {
                let cl = expr_code(pool, sc, names, sid, left as int);
                match expr_result(pool, sc, sid, left as int) {
                    Err(_) => cl,
                    Ok(l) => {
                        let cr = expr_code(pool, sc, names, sid, right as int);
                        match expr_result(pool, sc, sid, right as int) {
                            Err(_) => cl + cr,
                            Ok(r) => if same_shape(l, r) && operator == TokenType::Plus {
                                cl + cr + line(d, "add %f"@)
                            } else {
                                cl + cr
                            },
                        }
                    },
                }
            },
            Expr::Grouping { expression } => if expression >= idx {
                Seq::empty()
            } else {
                expr_code(pool, sc, names, sid, expression as int)
            },
            Expr::Literal { value } => if literal_result(value) is Err {
                Seq::empty()
            } else {
                match value {
                    Literal::Str(s) => string_code(d, s@),
                    Literal::Num(n) => line(d, "#num literal#"@) + line(
                        d,
                        "stc %f "@ + decimal_text(n.mantissa as int, n.scale as nat) + ""@,
                    ),
                    Literal::True => line(d, "#bool literal#"@) + line(d, "stc %b 1"@),
                    Literal::False => line(d, "#bool literal#"@) + line(d, "stc %b 0"@),
                    Literal::Void => Seq::empty(),
                }
            },
            Expr::Variable { name } => match var_of(sc, sid, name) {
                Some(v) => var_load_code(d, name_text(names, name), v),
                None => if sig_of(sc, sid, name) is Some {
                    line(d, "#fn ref "@ + name_text(names, name) + "#"@)
                } else {
                    Seq::empty()
                },
            },
            Expr::Assign { name, value } => if value >= idx {
                Seq::empty()
            } else {
                match var_of(sc, sid, name) {
                    Some(v) => line(d, "#assignment "@ + nat_text(v.offset as nat) + "#"@) + expr_code(
                        pool,
                        sc,
                        names,
                        sid,
                        value as int,
                    ) + if expr_result(pool, sc, sid, idx) is Ok {
                        store_code(d, v.offset, expr_result(pool, sc, sid, value as int)->Ok_0)
                    } else {
                        Seq::empty()
                    },
                    None => Seq::empty(),
                }
            },
            Expr::Call { callee, arguments } => if callee >= idx {
                Seq::empty()
            } else {
                let cc = expr_code(pool, sc, names, sid, callee as int);
                match expr_result(pool, sc, sid, callee as int) {
                    Ok(Kind::FunctionRef(f)) => cc + line(d, "#function call#"@) + match sig_of(sc, sid, f) {
                        Some(sig) => if sig.arity != arguments@.len() {
                            Seq::empty()
                        } else {
                            (if sig.arity != 0 {
                                line(d, "#parameters#"@)
                            } else {
                                Seq::empty()
                            }) + args_code(pool, sc, names, sid, idx, arguments@, sig.params) + match args_result(
                                pool,
                                sc,
                                sid,
                                idx,
                                arguments@,
                                sig.params,
                            ) {
                                Ok(size) => line(d, "#call#"@) + line(d, "mov "@ + nat_text(size) + " &bl"@) + line(
                                    d,
                                    "cal "@ + name_text(names, f) + ""@,
                                ),
                                Err(_) => Seq::empty(),
                            }
                        },
                        None => Seq::empty(),
                    },
                    _ => cc,
                }
            },
            _ => Seq::empty(),
        }
    }
}

/// The code the arguments `args` write, in order, up to and including the
/// first one that fails its check; later ones are not evaluated.
pub open spec fn args_code(
    pool: Seq<Expr>,
    sc: Seq<ScopeModel>,
    names: Seq<Seq<char>>,
    sid: int,
    bound: int,
    args: Seq<usize>,
    params: Seq<Kind>,
) -> Seq<char>
    decreases bound, 0int, args.len(),
{
    if args.len() == 0 {
        Seq::empty()
    } else if args_result(pool, sc, sid, bound, args.drop_last(), params) is Err || args.last() >= bound {
        args_code(pool, sc, names, sid, bound, args.drop_last(), params)
    } else {
        args_code(pool, sc, names, sid, bound, args.drop_last(), params) + expr_code(pool, sc, names, sid, args.last() as int)
    }
}

/// The code of a list of arguments whose earlier ones pass ends with the
/// code of its last one.
pub proof fn lemma_args_code_step(
    pool: Seq<Expr>,
    sc: Seq<ScopeModel>,
    names: Seq<Seq<char>>,
    sid: int,
    bound: int,
    args: Seq<usize>,
    params: Seq<Kind>,
)
    requires
        args.len() > 0,
        args.last() < bound,
        args_result(pool, sc, sid, bound, args.drop_last(), params) is Ok,
    ensures
        args_code(pool, sc, names, sid, bound, args, params) == args_code(pool, sc, names, sid, bound, args.drop_last(), params)
            + expr_code(pool, sc, names, sid, args.last() as int),
{
    reveal(expr_code);
}

/// Once an argument fails, the code of longer lists is the code up to it.
pub proof fn lemma_args_code_stops(
    pool: Seq<Expr>,
    sc: Seq<ScopeModel>,
    names: Seq<Seq<char>>,
    sid: int,
    bound: int,
    args: Seq<usize>,
    params: Seq<Kind>,
    j: int,
)
    requires
        0 <= j <= args.len(),
        args_result(pool, sc, sid, bound, args.take(j), params) is Err,
    ensures
        args_code(pool, sc, names, sid, bound, args, params) == args_code(pool, sc, names, sid, bound, args.take(j), params),
    decreases args.len() - j,
{
    reveal(expr_code);
    if j < args.len() {
        assert(args.take(j + 1).drop_last() =~= args.take(j));
        lemma_args_error_persists(pool, sc, sid, bound, args.take(j + 1), params, j);
        assert(args.take(j + 1).take(j) =~= args.take(j));
        lemma_args_code_stops(pool, sc, names, sid, bound, args, params, j + 1);
    } else {
        assert(args.take(j) =~= args);
    }
}

/// The code `return value` writes: the value, then, when the return is
/// accepted, the return sized by the value's kind.
pub open spec fn return_code(pool: Seq<Expr>, sc: Seq<ScopeModel>, names: Seq<Seq<char>>, sid: int, value: Option<usize>) -> Seq<char> {
    let d = sc[sid].gen;
    let (head, k) = match value {
        Some(e) => (line(d, "#return eval#"@) + expr_code(pool, sc, names, sid, e as int), expr_result(pool, sc, sid, e as int)->Ok_0),
        None => (Seq::empty(), Kind::Void),
    };
    head + if return_result(pool, sc, sid, value) is Ok {
        line(d, "#return#"@) + line(d, "mov "@ + nat_text(kind_size(k)) + " &bl"@) + line(d, "ret"@)
    } else {
        Seq::empty()
    }
}

/// The code that prints the string whose handle is on the stack: it copies
/// the length-prefixed string to the stack and calls the runtime's print trap.
pub open spec fn print_code(d: nat) -> Seq<char> {
    print_copy_code(d) + print_call_code(d)
}

/// The first part of the print sequence: the string is copied to the stack.
pub open spec fn print_copy_code(d: nat) -> Seq<char> {
    line(d, "#Print#"@) + line(d, "mov &ebx"@) + line(d, "mov &ebx &eax"@) + line(d, "rda %i"@) + line(d, "mov &ecx"@) + line(d, "pop %i"@) + line(d, "mov &sp &ebx"@) + line(d, "inc %i &ecx 4"@) + line(d, "mcp %h %s"@)
}

/// The second part of the print sequence: the print trap is called and the
/// stack restored.
pub open spec fn print_call_code(d: nat) -> Seq<char> {
    line(d, "add %i &ecx &sp"@) + line(d, "mov 1 &dl"@) + line(d, "or &dl &flg"@) + line(d, "mov &ecx &bl"@) + line(d, "cal 0x0"@) + line(d, "dcr %b &flg 1"@) + line(d, "sub %i &sp &ecx"@) + line(d, "mov &ecx &sp"@)
}

/// The header of a function definition: a comment with its name, arity and
/// return kind, then its label.
pub open spec fn function_header(d: nat, name: Seq<char>, arity: nat, ret: Kind) -> Seq<char> {
    line(d, "#function definition#"@) + line(d, "#"@ + name + "("@ + nat_text(arity) + ") -> "@ + kind_name(ret) + "#"@)
        + line(d, name + ":"@ + ""@)
}

/// The code one statement writes in scope `sid`, whether it compiles or
/// not: nothing after a failing check, and what came before it stays.
#[verifier::opaque]
pub open spec fn stmt_code(pool: Seq<Expr>, m: Seq<ScopeModel>, names: Seq<Seq<char>>, sid: int, s: Stmt) -> Seq<char>
    decreases s, 0int,
{
    let d = m[sid].gen;
    match s {
        Stmt::Expression { expression } => expr_code(pool, m, names, sid, expression as int),
        Stmt::Print { expression } => expr_code(pool, m, names, sid, expression as int) + if print_result(
            pool,
            m,
            sid,
            expression as int,
        ) is Ok {
            print_code(d)
        } else {
            Seq::empty()
        },
        Stmt::Var { name, initializer } => match initializer {
            None => Seq::empty(),
            Some(e) => line(d, "#variable "@ + name_text(names, name) + "#"@) + expr_code(pool, m, names, sid, e as int),
        },
        Stmt::Block { statements } => line(d, "#block#"@) + if m[sid].gen >= usize::MAX {
            Seq::empty()
        } else {
            let b = m.len() as int;
            let m1 = m.push(fresh_scope(Some(sid as usize), m[sid].gen + 1, None));
            let res = stmts_result(pool, m1, b, statements@);
            stmts_code(pool, m1, names, b, statements@) + if res.0 is Ok {
                line(d + 1, "dcr %i &sp "@ + nat_text(res.1[b].pos))
            } else {
                Seq::empty()
            }
        },
        Stmt::Function { name, params, return_type, body } => function_header(
            d,
            name_text(names, name),
            params@.len(),
            return_type,
        ) + if m[sid].gen >= usize::MAX {
            Seq::empty()
        } else {
            let fs = m.len() as int;
            let m1 = m.push(fresh_scope(Some(sid as usize), m[sid].gen + 1, Some(name)));
            let pr = params_run(m1, fs, params@, 0);
            let reg = register_outcome(pr.1, sid, fs, name, sig_of_definition(params@, return_type));
            if pr.0 is Err || reg.0 is Err {
                Seq::empty()
            } else {
                stmts_code(pool, reg.1, names, fs, body@)
            }
        },
        Stmt::Return { value } => return_code(pool, m, names, sid, value),
        _ => Seq::empty(),
    }
}

/// The code the statements `ss[i..]` write in scope `sid`, up to the first
/// that fails or returns.
pub open spec fn list_code(pool: Seq<Expr>, m: Seq<ScopeModel>, names: Seq<Seq<char>>, sid: int, ss: Seq<Stmt>, i: int) -> Seq<char>
    decreases ss, ss.len() - i,
{
    if i < 0 || i >= ss.len() {
        Seq::empty()
    } else if m[sid].gen <= 1 && !(ss[i] is Function) {
        Seq::empty()
    } else {
        let res = stmt_result(pool, m, sid, ss[i]);
        stmt_code(pool, m, names, sid, ss[i]) + if res.0 == Ok::<bool, CompileError>(false) {
            list_code(pool, res.1, names, sid, ss, i + 1)
        } else {
            Seq::empty()
        }
    }
}

/// One step of `list_code`: the statement at `i`, then, when it neither
/// failed nor returned, the rest.
pub proof fn lemma_list_code_step(pool: Seq<Expr>, m: Seq<ScopeModel>, names: Seq<Seq<char>>, sid: int, ss: Seq<Stmt>, i: int)
    requires
        0 <= i < ss.len(),
        !(m[sid].gen <= 1 && !(ss[i] is Function)),
    ensures
        list_code(pool, m, names, sid, ss, i) == stmt_code(pool, m, names, sid, ss[i]) + if stmt_result(pool, m, sid, ss[i]).0
            == Ok::<bool, CompileError>(false) {
            list_code(pool, stmt_result(pool, m, sid, ss[i]).1, names, sid, ss, i + 1)
        } else {
            Seq::empty()
        },
{
    reveal(stmt_code);
}

/// `list_code` writes nothing past the end, or for a statement not allowed
/// at file scope.
pub proof fn lemma_list_code_empty(pool: Seq<Expr>, m: Seq<ScopeModel>, names: Seq<Seq<char>>, sid: int, ss: Seq<Stmt>, i: int)
    requires
        i >= ss.len() || (0 <= i && m[sid].gen <= 1 && !(ss[i] is Function)),
    ensures
        list_code(pool, m, names, sid, ss, i) == Seq::<char>::empty(),
{
    reveal(stmt_code);
}

/// The code a statement list writes in scope `sid`.
pub open spec fn stmts_code(pool: Seq<Expr>, m: Seq<ScopeModel>, names: Seq<Seq<char>>, sid: int, ss: Seq<Stmt>) -> Seq<char>
    decreases ss, ss.len() + 1,
{
    list_code(pool, m, names, sid, ss, 0)
}

/// The code `gen_il` writes for `ss` in scope `cur`, or in a new file scope.
pub open spec fn gen_il_code(pool: Seq<Expr>, m: Seq<ScopeModel>, names: Seq<Seq<char>>, cur: Option<usize>, ss: Seq<Stmt>) -> Seq<char> {
    match cur {
        Some(sid) => stmts_code(pool, m, names, sid as int, ss),
        None => stmts_code(pool, m.push(fresh_scope(None, 1, None)), names, m.len() as int, ss),
    }
}

/// Outcome of `gen_il` on `ss` in scope `cur`, or in a new file scope at
/// depth 1 when none is given, and the scopes after.
pub open spec fn gen_il_result(pool: Seq<Expr>, m: Seq<ScopeModel>, cur: Option<usize>, ss: Seq<Stmt>) -> (Result<(), CompileError>, Seq<ScopeModel>) {
    match cur {
        Some(sid) => stmts_result(pool, m, sid as int, ss),
        None => stmts_result(pool, m.push(fresh_scope(None, 1, None)), m.len() as int, ss),
    }
}

/// The display name of symbol `f`, empty when unknown.
pub open spec fn name_text(names: Seq<Seq<char>>, f: usize) -> Seq<char> {
    if f < names.len() {
        names[f as int]
    } else {
        Seq::empty()
    }
}

/// `b` is the end of `a`.
pub open spec fn ends_with(a: Seq<char>, b: Seq<char>) -> bool {
    b.len() <= a.len() && a.subrange(a.len() - b.len(), a.len() as int) == b
}

/// Total size of values of the kinds `ks`.
pub open spec fn sizes_sum(ks: Seq<Kind>) -> nat
    decreases ks.len(),
{
    if ks.len() == 0 {
        0
    } else {
        sizes_sum(ks.drop_last()) + kind_size(ks.last())
    }
}

/// A `return` is accepted exactly when the returned kind has the shape of
/// the enclosing function's declared return kind; otherwise it fails with a
/// return type mismatch.
pub proof fn lemma_return_kind_must_match(
    pool: Seq<Expr>,
    sc: Seq<ScopeModel>,
    sid: int,
    value: Option<usize>,
    k: Kind,
    f: usize,
    sig: SigView,
)
    requires
        match value {
            None => k == Kind::Void,
            Some(e) => expr_result(pool, sc, sid, e as int) == Ok::<Kind, CompileError>(k),
        },
        enclosing_fn(sc, sid) == Some(f),
        sig_of(sc, sid, f) == Some(sig),
    ensures
        return_result(pool, sc, sid, value) is Ok <==> same_shape(k, sig.returns),
        !same_shape(k, sig.returns) ==> return_result(pool, sc, sid, value) == Err::<(), CompileError>(
            CompileError::ReturnTypeMismatch,
        ),
{
}

/// Checking well-kinded arguments in order yields their total size while it
/// stays within the limit, and a size error once it does not.
proof fn lemma_args_sizes(
    pool: Seq<Expr>,
    sc: Seq<ScopeModel>,
    sid: int,
    bound: int,
    args: Seq<usize>,
    params: Seq<Kind>,
    kinds: Seq<Kind>,
    n: int,
)
    requires
        0 <= n <= args.len(),
        kinds.len() == args.len(),
        params.len() >= args.len(),
        forall|j: int|
            0 <= j < args.len() ==> #[trigger] args[j] < bound && expr_result(pool, sc, sid, args[j] as int)
                == Ok::<Kind, CompileError>(kinds[j]) && same_shape(kinds[j], params[j]),
    ensures
        args_result(pool, sc, sid, bound, args.take(n), params) == if sizes_sum(kinds.take(n)) <= MAX_ARGS_SIZE {
            Ok::<nat, CompileError>(sizes_sum(kinds.take(n)))
        } else {
            Err::<nat, CompileError>(CompileError::ArgumentsTooLarge)
        },
    decreases n,
{
    if n > 0 {
        lemma_args_sizes(pool, sc, sid, bound, args, params, kinds, n - 1);
        assert(args.take(n).drop_last() =~= args.take(n - 1));
        assert(kinds.take(n).drop_last() =~= kinds.take(n - 1));
        assert(args.take(n)[n - 1] == args[n - 1]);
        assert(kinds.take(n).last() == kinds[n - 1]);
        assert(args[n - 1] < bound);
    } else {
        assert(args.take(0).len() == 0);
        assert(kinds.take(0).len() == 0);
    }
}

/// A call whose argument count differs from the callee's arity fails.
pub proof fn lemma_call_arity_mismatch_fails(pool: Seq<Expr>, sc: Seq<ScopeModel>, sid: int, idx: int, f: usize, sig: SigView)
    requires
        0 <= idx < pool.len(),
        crate::expr::children_below(pool[idx], idx),
        pool[idx] is Call,
        expr_result(pool, sc, sid, pool[idx]->callee as int) == Ok::<Kind, CompileError>(Kind::FunctionRef(f)),
        sig_of(sc, sid, f) == Some(sig),
        sig.arity != pool[idx]->arguments@.len(),
    ensures
        expr_result(pool, sc, sid, idx) == Err::<Kind, CompileError>(CompileError::ArityMismatch),
{
}

/// A call whose arguments match the callee's parameters in number and, one
/// by one, in kind succeeds with the callee's return kind when their total
/// size is at most 255, and fails with a size error when it is more (so 255
/// passes and 256 fails).
pub proof fn lemma_well_kinded_call(
    pool: Seq<Expr>,
    sc: Seq<ScopeModel>,
    sid: int,
    idx: int,
    f: usize,
    sig: SigView,
    kinds: Seq<Kind>,
)
    requires
        0 <= idx < pool.len(),
        crate::expr::children_below(pool[idx], idx),
        pool[idx] is Call,
        expr_result(pool, sc, sid, pool[idx]->callee as int) == Ok::<Kind, CompileError>(Kind::FunctionRef(f)),
        sig_of(sc, sid, f) == Some(sig),
        sig.arity == pool[idx]->arguments@.len(),
        sig.params.len() == sig.arity,
        kinds.len() == sig.arity,
        forall|j: int|
            0 <= j < kinds.len() ==> expr_result(pool, sc, sid, #[trigger] pool[idx]->arguments@[j] as int)
                == Ok::<Kind, CompileError>(kinds[j]) && same_shape(kinds[j], sig.params[j]),
    ensures
        sizes_sum(kinds) <= MAX_ARGS_SIZE ==> expr_result(pool, sc, sid, idx) == Ok::<Kind, CompileError>(sig.returns),
        sizes_sum(kinds) > MAX_ARGS_SIZE ==> expr_result(pool, sc, sid, idx) == Err::<Kind, CompileError>(
            CompileError::ArgumentsTooLarge,
        ),
{
    let args = pool[idx]->arguments@;
    assert forall|j: int|
        0 <= j < args.len() implies #[trigger] args[j] < idx && expr_result(pool, sc, sid, args[j] as int)
            == Ok::<Kind, CompileError>(kinds[j]) && same_shape(kinds[j], sig.params[j]) by {
        assert(pool[idx]->arguments@[j] == args[j]);
    }
    lemma_args_sizes(pool, sc, sid, idx, args, sig.params, kinds, args.len() as int);
    assert(args.take(args.len() as int) =~= args);
    assert(kinds.take(kinds.len() as int) =~= kinds);
}

/// An error met on a prefix of the arguments is the error of the whole call.
pub(crate) proof fn lemma_args_error_persists(
    pool: Seq<Expr>,
    sc: Seq<ScopeModel>,
    sid: int,
    bound: int,
    args: Seq<usize>,
    params: Seq<Kind>,
    j: int,
)
    requires
        0 <= j <= args.len(),
        args_result(pool, sc, sid, bound, args.take(j), params) is Err,
    ensures
        args_result(pool, sc, sid, bound, args, params) == args_result(pool, sc, sid, bound, args.take(j), params),
    decreases args.len() - j,
{
    if j < args.len() {
        assert(args.take(j + 1).drop_last() =~= args.take(j));
        lemma_args_error_persists(pool, sc, sid, bound, args, params, j + 1);
    } else {
        assert(args.take(j) =~= args);
    }
}

} // verus!
