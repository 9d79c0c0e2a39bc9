use vstd::prelude::*;
use vstd::string::{StringExecFns, StringSliceAdditionalSpecFns};
use crate::emit::{emit, emit_num, emit_num_mid, emit3, usize_text, decimal_to_text, nat_text, line};
use crate::error::{CompileError, LoxError, describe_text};
use crate::expr::{Expr, ExprPool, SymbolTable};
use crate::kind::Kind;
use crate::scope::{VarSlot, models, fresh_scope, ScopeModel, arena_grows, arena_growth, frame_sum, Scope, ScopeArena, Signature, SigView, sig_of, scope_is_void};
use crate::stmt::Stmt;
use crate::token::{Literal, TokenType, MAX_SCALE};
use crate::typing::{
    print_code, stmt_code, list_code, gen_il_code,
    var_load_code,
    return_code, string_code, store_code, var_address_code,
    stmt_result, list_run, stmts_result, params_run, register_outcome, gen_il_result, ok_as,
    MAX_ARGS_SIZE, args_result, args_code, expr_code, ends_with, expr_result, lemma_args_error_persists,
    name_text, print_result, return_result, var_decl_result,
};

verus! {

broadcast use arena_growth, crate::emit::lemma_prefix_trans, crate::emit::lemma_prefix_refl;

/// Compiles a whole program: checks it and returns the listing of its code.
pub fn compile(expr_pool: ExprPool, symbol_table: SymbolTable, statements: &Vec<Stmt>) -> (r: Result<String, LoxError>)
    ensures
        r is Ok <==> gen_il_result(expr_pool@, Seq::empty(), None, statements@).0 is Ok,
        r is Ok ==> r->Ok_0@ == gen_il_code(expr_pool@, Seq::empty(), symbol_table@, None, statements@),
        r is Err ==> r->Err_0 is CompilationError && r->Err_0->CompilationError_0@ == describe_text(
            gen_il_result(expr_pool@, Seq::empty(), None, statements@).0->Err_0,
            symbol_table@,
        ),
        statements@.len() > 0 && !(statements@[0] is Function) ==> r is Err,
{
    let mut interpreter = Interpreter::new(expr_pool, symbol_table);
    let mut out = String::new();
    proof {
        assert(out@ =~= Seq::<char>::empty());
        assert(interpreter.models() =~= Seq::<ScopeModel>::empty());
    }
    match interpreter.gen_il(statements, &mut out, None) {
        Ok(()) => Ok(out),
        Err(e) => Err(LoxError::CompilationError(e.describe(&interpreter.symbol_table))),
    }
}

/// Walks a statement tree and writes the listing for it.
pub struct Interpreter {
    expr_pool: ExprPool,
    pub symbol_table: SymbolTable,
    counter: usize,
    scopes: ScopeArena,
}


impl Interpreter {
    pub closed spec fn pool(&self) -> Seq<Expr> {
        self.expr_pool@
    }

    pub closed spec fn arena(&self) -> Seq<Scope> {
        self.scopes@
    }

    pub open spec fn models(&self) -> Seq<ScopeModel> {
        models(self.arena())
    }

    pub closed spec fn names(&self) -> Seq<Seq<char>> {
        self.symbol_table@
    }

    pub closed spec fn label_counter(&self) -> nat {
        self.counter as nat
    }

    pub closed spec fn wf(&self) -> bool {
        self.expr_pool.wf() && self.scopes.wf()
    }

    pub fn new(expr_pool: ExprPool, symbol_table: SymbolTable) -> (r: Interpreter)
        ensures
            r.wf(),
            r.pool() == expr_pool@,
            r.names() == symbol_table@,
            r.arena().len() == 0,
            r.label_counter() == 0,
    {
        expr_pool.well_formed();
        Interpreter { expr_pool, symbol_table, counter: 0, scopes: ScopeArena::new() }
    }

    /// A fresh label: `pre` followed by the number of labels made before.
    pub fn gen_label(&mut self, pre: &str) -> (r: String)
        requires
            old(self).label_counter() < usize::MAX,
        ensures
            r@ == pre@ + nat_text(old(self).label_counter()),
            final(self).label_counter() == old(self).label_counter() + 1,
            final(self).pool() == old(self).pool(),
            final(self).arena() == old(self).arena(),
            final(self).names() == old(self).names(),
            final(self).wf() == old(self).wf(),
    {
        let c = self.counter;
        self.counter = self.counter + 1;
        let mut s = String::from_str(pre);
        let d = usize_text(c);
        s.append(d.as_str());
        s
    }

    /// The index of the file scope: the first scope of the arena, which the
    /// first `gen_il` call without a scope opens. `None` before that call.
    pub fn get_globals(&self) -> (r: Option<usize>)
        ensures
            r is Some <==> self.arena().len() > 0,
            r is Some ==> r->0 == 0,
    {
        if self.scopes.len() > 0 {
            Some(0)
        } else {
            None
        }
    }

    /// Opens a scope for a later `gen_il` call (see `ScopeArena::open`).
    pub fn new_scope(&mut self, parent: Option<usize>, gen: Option<usize>, name: Option<usize>) -> (r: Result<usize, CompileError>)
        requires
            old(self).wf(),
        ensures
            final(self).wf(),
            final(self).pool() == old(self).pool(),
            final(self).names() == old(self).names(),
            r is Ok ==> r->Ok_0 == old(self).arena().len() && final(self).arena().len() == old(self).arena().len() + 1
                && final(self).arena().drop_last() == old(self).arena(),
            r is Ok ==> final(self).arena().last().owner() == name && final(self).arena().last().parent_spec() == parent,
            gen is Some || parent is None ==> (r is Ok <==> match parent {
                Some(p) => p < old(self).arena().len(),
                None => true,
            }),
            gen is Some && r is Ok ==> final(self).arena().last().gen_spec() == gen->0,
    {
        self.scopes.open(parent, gen, name)
    }

    /// The scopes made so far.
    pub fn scopes(&self) -> (r: &ScopeArena)
        ensures
            r@ == self.arena(),
    {
        &self.scopes
    }

    /// Writes the code of expression `idx` in scope `sid` and returns the
    /// kind of its value. A failing check writes nothing more; what its
    /// sub-expressions wrote before it stays.
    #[verifier::rlimit(100)]
    pub fn handle_expression(&self, out: &mut String, sid: usize, idx: usize) -> (r: Result<Kind, CompileError>)
        requires
            self.wf(),
            sid < self.arena().len(),
        ensures
            r == expr_result(self.pool(), self.models(), sid as int, idx as int),
            final(out)@ == old(out)@ + expr_code(self.pool(), self.models(), self.names(), sid as int, idx as int),
        decreases idx, 1int,
    {
        if idx >= self.expr_pool.len() {
            proof {
                assert(out@ =~= old(out)@ + expr_code(self.pool(), self.models(), self.names(), sid as int, idx as int)) by {
                    reveal(expr_code);
                }
            }
            return Err(CompileError::UnknownExpression);
        }
        let depth = self.scopes.get(sid).gen();
        let expr = self.expr_pool.get_expr(idx);
        let ghost o0 = out@;
        proof {
            assert(self.models()[sid as int] == self.arena()[sid as int].model());
            assert(crate::expr::children_below(self.pool()[idx as int], idx as int));
        }
        match expr {
            Expr::Binary { .. } => self.gen_binary(out, sid, idx),
            Expr::Grouping { expression } => {
                let r = self.handle_expression(out, sid, *expression);
                proof {
                    assert(out@ =~= o0 + expr_code(self.pool(), self.models(), self.names(), sid as int, idx as int)) by {
                        reveal(expr_code);
                    }
                }
                r
            },
            Expr::Literal { .. } => self.gen_literal(out, sid, idx),
            Expr::Variable { name } => {
                let var_name = self.symbol_table.resolve(*name);
                match self.scopes.get_var(sid, *name) {
                    Ok(v) => {
                        Self::emit_var_load(out, depth, var_name, v);
                        proof {
                            assert(out@ =~= o0 + expr_code(self.pool(), self.models(), self.names(), sid as int, idx as int)) by {
                                reveal(expr_code);
                            }
                        }
                        Ok(v.kind)
                    },
                    Err(_) => {
                        if self.scopes.has_signature(sid, *name) {
                            emit3(out, depth, "#fn ref ", var_name, "#");
                            proof {
                                assert(out@ =~= o0 + expr_code(self.pool(), self.models(), self.names(), sid as int, idx as int)) by {
                                    reveal(expr_code);
                                }
                            }
                            Ok(Kind::FunctionRef(*name))
                        } else {
                            proof {
                                assert(out@ =~= o0 + expr_code(self.pool(), self.models(), self.names(), sid as int, idx as int)) by {
                                    reveal(expr_code);
                                }
                            }
                            Err(CompileError::UnknownName(*name))
                        }
                    },
                }
            },
            Expr::Assign { .. } => self.gen_assign(out, sid, idx),
            Expr::Call { .. } => self.gen_call(out, sid, idx),
            Expr::Unary { .. } | Expr::Logical { .. } => {
                proof {
                    assert(out@ =~= o0 + expr_code(self.pool(), self.models(), self.names(), sid as int, idx as int)) by {
                        reveal(expr_code);
                    }
                }
                Ok(Kind::Void)
            },
            _ => {
                proof {
                    assert(out@ =~= o0 + expr_code(self.pool(), self.models(), self.names(), sid as int, idx as int)) by {
                        reveal(expr_code);
                    }
                }
                Err(CompileError::Unsupported)
            },
        }
    }

    /// Writes the load of variable `v`, named `name`.
    fn emit_var_load(out: &mut String, depth: usize, name: &str, v: VarSlot)
        ensures
            final(out)@ == old(out)@ + var_load_code(depth as nat, name@, v),
    {
        emit3(out, depth, "#var ref ", name, "#");
        emit(out, depth, "mov &bp &ebx");
        if v.offset > 0 {
            emit_num(out, depth, "inc %i &ebx ", v.offset);
        }
        if v.size == 1 {
            emit(out, depth, "rda %b");
        } else {
            emit(out, depth, "rda %i");
        }
        proof {
            assert(out@ =~= old(out)@ + var_load_code(depth as nat, name@, v));
        }
    }

    /// Writes the code of the binary expression `idx`: both operands, then
    /// the operator.
    #[verifier::rlimit(100)]
    fn gen_binary(&self, out: &mut String, sid: usize, idx: usize) -> (r: Result<Kind, CompileError>)
        requires
            self.wf(),
            sid < self.arena().len(),
            idx < self.pool().len(),
            self.pool()[idx as int] is Binary,
        ensures
            r == expr_result(self.pool(), self.models(), sid as int, idx as int),
            final(out)@ == old(out)@ + expr_code(self.pool(), self.models(), self.names(), sid as int, idx as int),
        decreases idx, 0int,
    {
        let depth = self.scopes.get(sid).gen();
        let expr = self.expr_pool.get_expr(idx);
        let ghost o0 = out@;
        proof {
            assert(self.models()[sid as int] == self.arena()[sid as int].model());
            assert(crate::expr::children_below(self.pool()[idx as int], idx as int));
        }
        let (left, operator, right) = match expr {
            Expr::Binary { left, operator, right } => (left, operator, right),
            _ => return Err(CompileError::Unsupported),
        };
        let l = match self.handle_expression(out, sid, *left) {
            Ok(l) => l,
            Err(e) => {
                proof {
                    assert(out@ =~= o0 + expr_code(self.pool(), self.models(), self.names(), sid as int, idx as int)) by {
                        reveal(expr_code);
                    }
                }
                return Err(e);
            },
        };
        let rk = match self.handle_expression(out, sid, *right) {
            Ok(k) => k,
            Err(e) => {
                proof {
                    assert(out@ =~= o0 + expr_code(self.pool(), self.models(), self.names(), sid as int, idx as int)) by {
                        reveal(expr_code);
                    }
                }
                return Err(e);
            },
        };
        if !l.same_shape(&rk) || !matches!(operator, TokenType::Plus) {
            proof {
                assert(out@ =~= o0 + expr_code(self.pool(), self.models(), self.names(), sid as int, idx as int)) by {
                    reveal(expr_code);
                }
            }
            return if !l.same_shape(&rk) {
                Err(CompileError::OperandTypeMismatch)
            } else {
                Err(CompileError::Unsupported)
            };
        }
        emit(out, depth, "add %f");
        proof {
            assert(out@ =~= o0 + expr_code(self.pool(), self.models(), self.names(), sid as int, idx as int)) by {
                reveal(expr_code);
            }
        }
        Ok(l)
    }

    /// Writes the address of the variable at `offset` into `&ebx`.
    fn emit_address(out: &mut String, depth: usize, offset: usize)
        ensures
            final(out)@ == old(out)@ + var_address_code(depth as nat, offset),
    {
        emit(out, depth, "mov &bp &ebx");
        if offset > 0 {
            emit_num(out, depth, "inc %i &ebx ", offset);
        }
        proof {
            assert(out@ =~= old(out)@ + var_address_code(depth as nat, offset));
        }
    }

    /// Writes the freeing of the string whose handle is at the address in
    /// `&ebx`.
    #[verifier::rlimit(100)]
    fn emit_free(out: &mut String, depth: usize)
        ensures
            final(out)@ == old(out)@ + crate::typing::free_code(depth as nat),
    {
        emit(out, depth, "rda %i");
        emit(out, depth, "mov &ebx");
        emit(out, depth, "pop %i");
        emit(out, depth, "rda %i");
        emit(out, depth, "mov &ecx");
        emit(out, depth, "pop %i");
        emit(out, depth, "inc %i &ecx 4");
        emit(out, depth, "del");
        proof {
            assert(out@ =~= old(out)@ + crate::typing::free_code(depth as nat));
        }
    }

    /// Writes the store of a value of kind `k` into the variable at `offset`.
    #[verifier::rlimit(100)]
    #[verifier::spinoff_prover]
    fn emit_store(out: &mut String, depth: usize, offset: usize, k: Kind)
        ensures
            final(out)@ == old(out)@ + store_code(depth as nat, offset, k),
    {
        if matches!(k, Kind::String) {
            emit(out, depth, "#string assignment#");
            Self::emit_address(out, depth, offset);
            Self::emit_free(out, depth);
            Self::emit_address(out, depth, offset);
            emit(out, depth, "ldc %i");
            emit(out, depth, "pop %i");
            proof {
                assert(out@ =~= old(out)@ + store_code(depth as nat, offset, k));
            }
        } else {
            emit(out, depth, "#assignment#");
            Self::emit_address(out, depth, offset);
            if k.size() == 1 {
                emit(out, depth, "ldc %b");
                emit(out, depth, "pop %b");
            } else {
                emit(out, depth, "ldc %i");
                emit(out, depth, "pop %i");
            }
            proof {
                assert(out@ =~= old(out)@ + store_code(depth as nat, offset, k));
            }
        }
    }

    /// Writes the code of a string literal `val` of `n` bytes.
    #[verifier::rlimit(100)]
    fn emit_string(out: &mut String, depth: usize, val: &str, n: usize)
        requires
            n == (val@.len() as usize),
            n <= usize::MAX - 4,
        ensures
            final(out)@ == old(out)@ + string_code(depth as nat, val@),
    {
        emit(out, depth, "#str literal#");
        let mut raw = String::from_str("raw ");
        let d = usize_text(n);
        raw.append(d.as_str());
        raw.append(" \"");
        raw.append(val);
        raw.append("\" ;");
        emit(out, depth, raw.as_str());
        emit_num_mid(out, depth, "mov ", n + 4, " &ecx");
        emit(out, depth, "alc");
        emit(out, depth, "mov &ecx &eax");
        emit(out, depth, "sub %i &sp &eax");
        emit(out, depth, "mcp %s %h");
        emit_num(out, depth, "dcr %i &sp ", n + 4);
        emit(out, depth, "rda &ebx");
        proof {
            assert(out@ =~= old(out)@ + string_code(depth as nat, val@));
        }
    }

    /// Writes the code of the literal `idx`.
    #[verifier::rlimit(100)]
    fn gen_literal(&self, out: &mut String, sid: usize, idx: usize) -> (r: Result<Kind, CompileError>)
        requires
            self.wf(),
            sid < self.arena().len(),
            idx < self.pool().len(),
            self.pool()[idx as int] is Literal,
        ensures
            r == expr_result(self.pool(), self.models(), sid as int, idx as int),
            final(out)@ == old(out)@ + expr_code(self.pool(), self.models(), self.names(), sid as int, idx as int),
        decreases idx, 0int,
    {
        let depth = self.scopes.get(sid).gen();
        let expr = self.expr_pool.get_expr(idx);
        let ghost o0 = out@;
        proof {
            assert(self.models()[sid as int] == self.arena()[sid as int].model());
            assert(crate::expr::children_below(self.pool()[idx as int], idx as int));
        }
        let value = match expr {
            Expr::Literal { value } => value,
            _ => return Err(CompileError::Unsupported),
        };
        let r = match value {
            Literal::Str(val) => {
                let vs = val.as_str();
                if !vs.is_ascii() {
                    Err(CompileError::NonAsciiString)
                } else {
                    let n = vs.len();
                    proof {
                        vstd::string::is_ascii_spec_bytes(vs);
                        assert(vs.spec_bytes() =~= Seq::new(vs@.len(), |i| vs@.index(i) as u8));
                    }
                    if n > usize::MAX - 4 {
                        Err(CompileError::FrameOverflow)
                    } else {
                        Self::emit_string(out, depth, vs, n);
                        Ok(Kind::String)
                    }
                }
            },
            Literal::Num(num) => {
                if num.scale > MAX_SCALE {
                    Err(CompileError::Unsupported)
                } else {
                    emit(out, depth, "#num literal#");
                    let t = decimal_to_text(num.mantissa, num.scale);
                    emit3(out, depth, "stc %f ", t.as_str(), "");
                    Ok(Kind::Number)
                }
            },
            Literal::True => {
                emit(out, depth, "#bool literal#");
                emit(out, depth, "stc %b 1");
                Ok(Kind::Boolean)
            },
            Literal::False => {
                emit(out, depth, "#bool literal#");
                emit(out, depth, "stc %b 0");
                Ok(Kind::Boolean)
            },
            Literal::Void => Err(CompileError::Unsupported),
        };
        proof {
            assert(out@ =~= o0 + expr_code(self.pool(), self.models(), self.names(), sid as int, idx as int)) by {
                reveal(expr_code);
            }
        }
        r
    }

    /// Writes the code of the assignment `idx`: its value, then the store.
    #[verifier::rlimit(100)]
    fn gen_assign(&self, out: &mut String, sid: usize, idx: usize) -> (r: Result<Kind, CompileError>)
        requires
            self.wf(),
            sid < self.arena().len(),
            idx < self.pool().len(),
            self.pool()[idx as int] is Assign,
        ensures
            r == expr_result(self.pool(), self.models(), sid as int, idx as int),
            final(out)@ == old(out)@ + expr_code(self.pool(), self.models(), self.names(), sid as int, idx as int),
        decreases idx, 0int,
    {
        let depth = self.scopes.get(sid).gen();
        let expr = self.expr_pool.get_expr(idx);
        let ghost o0 = out@;
        proof {
            assert(self.models()[sid as int] == self.arena()[sid as int].model());
            assert(crate::expr::children_below(self.pool()[idx as int], idx as int));
        }
        let (name, value) = match expr {
            Expr::Assign { name, value } => (name, value),
            _ => return Err(CompileError::Unsupported),
        };
        let v = match self.scopes.get_var(sid, *name) {
            Ok(v) => v,
            Err(e) => {
                proof {
                    assert(out@ =~= o0 + expr_code(self.pool(), self.models(), self.names(), sid as int, idx as int)) by {
                        reveal(expr_code);
                    }
                }
                return Err(e);
            },
        };
        emit_num_mid(out, depth, "#assignment ", v.offset, "#");
        let k = match self.handle_expression(out, sid, *value) {
            Ok(k) => k,
            Err(e) => {
                proof {
                    assert(out@ =~= o0 + expr_code(self.pool(), self.models(), self.names(), sid as int, idx as int)) by {
                        reveal(expr_code);
                    }
                }
                return Err(e);
            },
        };
        let r = if !v.kind.same_shape(&k) {
            Err(CompileError::TypeMismatch)
        } else {
            match k {
                Kind::Void => Err(CompileError::VoidAssignment),
                Kind::FunctionRef(_) => Err(CompileError::FunctionAssignment),
                _ => {
                    Self::emit_store(out, depth, v.offset, k);
                    Ok(Kind::Void)
                },
            }
        };
        proof {
            assert(out@ =~= o0 + expr_code(self.pool(), self.models(), self.names(), sid as int, idx as int)) by {
                reveal(expr_code);
            }
        }
        r
    }

    /// Writes the code of the call `idx`: callee, arguments in order, then
    /// the call sized by the arguments' total size. Nothing is written after
    /// a failing check; arguments after a failing one are not evaluated.
    #[verifier::rlimit(100)]
    #[verifier::spinoff_prover]
    fn gen_call(&self, out: &mut String, sid: usize, idx: usize) -> (r: Result<Kind, CompileError>)
        requires
            self.wf(),
            sid < self.arena().len(),
            idx < self.pool().len(),
            self.pool()[idx as int] is Call,
        ensures
            r == expr_result(self.pool(), self.models(), sid as int, idx as int),
            final(out)@ == old(out)@ + expr_code(self.pool(), self.models(), self.names(), sid as int, idx as int),
        decreases idx, 0int,
    {
        let depth = self.scopes.get(sid).gen();
        let expr = self.expr_pool.get_expr(idx);
        let ghost o0 = out@;
        let ghost pool = self.pool();
        let ghost names = self.names();
        let ghost sc = self.models();
        proof {
            assert(self.models()[sid as int] == self.arena()[sid as int].model());
            assert(crate::expr::children_below(self.pool()[idx as int], idx as int));
        }
        let (callee, arguments) = match expr {
            Expr::Call { callee, arguments } => (callee, arguments),
            _ => return Err(CompileError::Unsupported),
        };
        let c = match self.handle_expression(out, sid, *callee) {
            Ok(c) => c,
            Err(e) => {
                proof {
                    assert(out@ =~= o0 + expr_code(self.pool(), self.models(), self.names(), sid as int, idx as int)) by {
                        reveal(expr_code);
                    }
                }
                return Err(e);
            },
        };
        let f = match c {
            Kind::FunctionRef(f) => f,
            _ => {
                proof {
                    assert(out@ =~= o0 + expr_code(self.pool(), self.models(), self.names(), sid as int, idx as int)) by {
                        reveal(expr_code);
                    }
                }
                return Err(CompileError::NotCallable);
            },
        };
        emit(out, depth, "#function call#");
        let sig = match self.scopes.get_signature(sid, f) {
            Ok(sig) => sig,
            Err(e) => {
                proof {
                    assert(out@ =~= o0 + expr_code(self.pool(), self.models(), self.names(), sid as int, idx as int)) by {
                        reveal(expr_code);
                    }
                }
                return Err(e);
            },
        };
        if sig.arity != arguments.len() {
            proof {
                assert(out@ =~= o0 + expr_code(self.pool(), self.models(), self.names(), sid as int, idx as int)) by {
                    reveal(expr_code);
                }
            }
            return Err(CompileError::ArityMismatch);
        }
        let ghost o_head = out@;
        proof {
            assert(o_head =~= o0 + expr_code(pool, sc, names, sid as int, *callee as int) + line(depth as nat, "#function call#"@));
        }
        if sig.arity != 0 {
            emit(out, depth, "#parameters#");
        }
        let ghost o_args = out@;
        proof {
            assert(o_args =~= o_head + (if sig.arity != 0 {
                line(depth as nat, "#parameters#"@)
            } else {
                Seq::empty()
            }));
        }
        let mut size: usize = 0;
        let mut j: usize = 0;
        proof {
            assert(arguments@.take(0) =~= Seq::<usize>::empty());
            assert(out@ =~= o_args + args_code(pool, sc, names, sid as int, idx as int, arguments@.take(0), sig.params@));
        }
        while j < arguments.len()
            invariant
                self.wf(),
                sid < self.arena().len(),
                pool == self.pool(),
                sc == self.models(),
                names == self.names(),
                idx < pool.len(),
                pool[idx as int] == *expr,
                crate::expr::children_below(*expr, idx as int),
                expr == (Expr::Call { callee: *callee, arguments: *arguments }),
                expr_result(pool, sc, sid as int, *callee as int) == Ok::<Kind, CompileError>(Kind::FunctionRef(f)),
                sig_of(sc, sid as int, f) == Some(sig@),
                sig.arity == arguments@.len(),
                j <= arguments@.len(),
                size <= MAX_ARGS_SIZE,
                args_result(pool, sc, sid as int, idx as int, arguments@.take(j as int), sig.params@)
                    == Ok::<nat, CompileError>(size as nat),
                out@ == o_args + args_code(pool, sc, names, sid as int, idx as int, arguments@.take(j as int), sig.params@),
                o_args == o_head + (if sig.arity != 0 {
                    line(depth as nat, "#parameters#"@)
                } else {
                    Seq::empty()
                }),
                o_head == o0 + expr_code(pool, sc, names, sid as int, *callee as int) + line(depth as nat, "#function call#"@),
                depth == sc[sid as int].gen,
                o0 == old(out)@,
            decreases arguments@.len() - j,
        {
            let a = arguments[j];
            let ghost t = arguments@.take(j + 1);
            proof {
                assert(t.drop_last() =~= arguments@.take(j as int));
                assert(t[j as int] == a);
                assert(t.last() == a);
                assert(a < idx);
            }
            let ghost ob = out@;
            let res = self.handle_expression(out, sid, a);
            proof {
                crate::typing::lemma_args_code_step(pool, sc, names, sid as int, idx as int, t, sig.params@);
                assert(out@ =~= o_args + args_code(pool, sc, names, sid as int, idx as int, t, sig.params@));
            }
            let fail = match res {
                Ok(k) => {
                    if j >= sig.params.len() || !k.same_shape(&sig.params[j]) {
                        Some(CompileError::ArgumentTypeMismatch)
                    } else if size + k.size() > MAX_ARGS_SIZE {
                        Some(CompileError::ArgumentsTooLarge)
                    } else {
                        size = size + k.size();
                        None
                    }
                },
                Err(e) => Some(e),
            };
            if let Some(e) = fail {
                proof {
                    assert(args_result(pool, sc, sid as int, idx as int, t, sig.params@) == Err::<nat, CompileError>(e));
                    lemma_args_error_persists(pool, sc, sid as int, idx as int, arguments@, sig.params@, j + 1);
                    crate::typing::lemma_args_code_stops(pool, sc, names, sid as int, idx as int, arguments@, sig.params@, j + 1);
                    assert(out@ =~= o_head + (if sig.arity != 0 {
                        line(depth as nat, "#parameters#"@)
                    } else {
                        Seq::empty()
                    }) + args_code(pool, sc, names, sid as int, idx as int, arguments@, sig.params@));
                }
                proof {
                    assert(out@ =~= o0 + expr_code(self.pool(), self.models(), self.names(), sid as int, idx as int)) by {
                        reveal(expr_code);
                    }
                }
                return Err(e);
            }
            j = j + 1;
        }
        proof {
            assert(arguments@.take(j as int) =~= arguments@);
        }
        let ghost oa = out@;
        emit(out, depth, "#call#");
        emit_num_mid(out, depth, "mov ", size, " &bl");
        let fname = self.symbol_table.resolve(f);
        emit3(out, depth, "cal ", fname, "");
        proof {
            assert(oa =~= o_head + (if sig.arity != 0 {
                line(depth as nat, "#parameters#"@)
            } else {
                Seq::empty()
            }) + args_code(pool, sc, names, sid as int, idx as int, arguments@, sig.params@));
        }
        proof {
            assert(out@ =~= o0 + expr_code(self.pool(), self.models(), self.names(), sid as int, idx as int)) by {
                reveal(expr_code);
            }
        }
        Ok(sig.returns)
    }

    /// Writes the fixed sequence that prints the string whose handle is on
    /// the stack.
    fn emit_print_trap(out: &mut String, depth: usize)
        ensures
            final(out)@ == old(out)@ + print_code(depth as nat),
    {
        Self::emit_print_copy(out, depth);
        Self::emit_print_call(out, depth);
        proof {
            assert(out@ =~= old(out)@ + print_code(depth as nat));
        }
    }

    #[verifier::rlimit(100)]
    fn emit_print_copy(out: &mut String, depth: usize)
        ensures
            final(out)@ == old(out)@ + crate::typing::print_copy_code(depth as nat),
    {
        emit(out, depth, "#Print#");
        emit(out, depth, "mov &ebx");
        emit(out, depth, "mov &ebx &eax");
        emit(out, depth, "rda %i");
        emit(out, depth, "mov &ecx");
        emit(out, depth, "pop %i");
        emit(out, depth, "mov &sp &ebx");
        emit(out, depth, "inc %i &ecx 4");
        emit(out, depth, "mcp %h %s");
        proof {
            assert(out@ =~= old(out)@ + crate::typing::print_copy_code(depth as nat));
        }
    }

    #[verifier::rlimit(100)]
    fn emit_print_call(out: &mut String, depth: usize)
        ensures
            final(out)@ == old(out)@ + crate::typing::print_call_code(depth as nat),
    {
        emit(out, depth, "add %i &ecx &sp");
        emit(out, depth, "mov 1 &dl");
        emit(out, depth, "or &dl &flg");
        emit(out, depth, "mov &ecx &bl");
        emit(out, depth, "cal 0x0");
        emit(out, depth, "dcr %b &flg 1");
        emit(out, depth, "sub %i &sp &ecx");
        emit(out, depth, "mov &ecx &sp");
        proof {
            assert(out@ =~= old(out)@ + crate::typing::print_call_code(depth as nat));
        }
    }


    /// Writes the code of `print e`.
    fn gen_print(&self, out: &mut String, sid: usize, e: usize) -> (r: Result<(), CompileError>)
        requires
            self.wf(),
            sid < self.arena().len(),
        ensures
            r == print_result(self.pool(), self.models(), sid as int, e as int),
            final(out)@ == old(out)@ + expr_code(self.pool(), self.models(), self.names(), sid as int, e as int) + if r is Ok {
                print_code(self.models()[sid as int].gen)
            } else {
                Seq::empty()
            },
    {
        let depth = self.scopes.get(sid).gen();
        proof {
            assert(self.models()[sid as int] == self.arena()[sid as int].model());
        }
        let k = match self.handle_expression(out, sid, e) {
            Ok(k) => k,
            Err(x) => {
                proof {
                    assert(out@ =~= old(out)@ + expr_code(self.pool(), self.models(), self.names(), sid as int, e as int) + Seq::empty());
                }
                return Err(x);
            },
        };
        let var_ref = match self.expr_pool.get_expr(e) {
            Expr::Variable { name } => self.scopes.has_var(sid, *name),
            _ => false,
        };
        if !(matches!(k, Kind::String) || var_ref) {
            proof {
                assert(out@ =~= old(out)@ + expr_code(self.pool(), self.models(), self.names(), sid as int, e as int) + Seq::empty());
            }
            return Err(CompileError::ExpectedString);
        }
        let ghost o1 = out@;
        Self::emit_print_trap(out, depth);
        Ok(())
    }

    /// Writes the code of `return value`: the value, then, when it matches
    /// the function's return kind, the return sized by the value's kind.
    #[verifier::rlimit(100)]
    fn gen_return(&self, out: &mut String, sid: usize, value: Option<usize>) -> (r: Result<(), CompileError>)
        requires
            self.wf(),
            sid < self.arena().len(),
        ensures
            r == return_result(self.pool(), self.models(), sid as int, value),
            final(out)@ == old(out)@ + return_code(self.pool(), self.models(), self.names(), sid as int, value),
    {
        let depth = self.scopes.get(sid).gen();
        let ghost o0 = out@;
        proof {
            assert(self.models()[sid as int] == self.arena()[sid as int].model());
        }
        let k = match value {
            Some(e) => {
                emit(out, depth, "#return eval#");
                match self.handle_expression(out, sid, e) {
                    Ok(k) => k,
                    Err(x) => {
                        proof {
                            assert(out@ =~= o0 + return_code(self.pool(), self.models(), self.names(), sid as int, value));
                        }
                        return Err(x);
                    },
                }
            },
            None => Kind::Void,
        };
        let ghost oh = out@;
        let r = match self.scopes.enclosing_function(sid) {
            None => Err(CompileError::ReturnOutsideFunction),
            Some(f) => match self.scopes.get_signature(sid, f) {
                Err(x) => Err(x),
                Ok(sig) => if !sig.returns.same_shape(&k) {
                    Err(CompileError::ReturnTypeMismatch)
                } else {
                    Ok(())
                },
            },
        };
        if r.is_err() {
            proof {
                assert(out@ =~= o0 + return_code(self.pool(), self.models(), self.names(), sid as int, value));
            }
            return r;
        }
        emit(out, depth, "#return#");
        emit_num_mid(out, depth, "mov ", k.size(), " &bl");
        emit(out, depth, "ret");
        proof {
            assert(out@ =~= o0 + return_code(self.pool(), self.models(), self.names(), sid as int, value));
        }
        Ok(())
    }

    /// Writes the code of `var name = init` and declares the variable.
    fn gen_var(&mut self, out: &mut String, sid: usize, name: usize, init: Option<usize>) -> (r: Result<(), CompileError>)
        requires
            old(self).wf(),
            sid < old(self).arena().len(),
        ensures
            r == var_decl_result(old(self).pool(), old(self).models(), sid as int, name, init),
            final(self).wf(),
            final(self).pool() == old(self).pool(),
            final(self).names() == old(self).names(),
            arena_grows(old(self).arena(), final(self).arena()),
            final(self).models() == stmt_result(old(self).pool(), old(self).models(), sid as int, (Stmt::Var { name, initializer: init })).1,
            final(out)@ == old(out)@ + match init {
                None => Seq::empty(),
                Some(e) => line(old(self).models()[sid as int].gen, "#variable "@ + name_text(old(self).names(), name) + "#"@)
                    + expr_code(old(self).pool(), old(self).models(), old(self).names(), sid as int, e as int),
            },
    {
        let e = match init {
            Some(e) => e,
            None => {
                proof {
                    assert(out@ =~= old(out)@ + Seq::empty());
                }
                return Err(CompileError::MissingInitializer);
            },
        };
        let depth = self.scopes.get(sid).gen();
        proof {
            assert(self.models()[sid as int] == self.arena()[sid as int].model());
        }
        emit3(out, depth, "#variable ", self.symbol_table.resolve(name), "#");
        let ghost o1 = out@;
        let k = match self.handle_expression(out, sid, e) {
            Ok(k) => k,
            Err(x) => {
                proof {
                    assert(out@ =~= old(out)@ + (line(depth as nat, "#variable "@ + name_text(self.names(), name) + "#"@)
                        + expr_code(self.pool(), self.models(), self.names(), sid as int, e as int)));
                }
                return Err(x);
            },
        };
        proof {
            assert(out@ =~= old(out)@ + (line(depth as nat, "#variable "@ + name_text(self.names(), name) + "#"@)
                + expr_code(self.pool(), self.models(), self.names(), sid as int, e as int)));
        }
        let r = self.scopes.add_var(sid, name, k.size(), k);
        proof {
            assert(models(old(self).arena())[sid as int] == old(self).arena()[sid as int].model());
        }
        r
    }

    /// Declares the parameters of a function in its scope `fs`, in order,
    /// and returns their kinds.
    #[verifier::rlimit(100)]
    fn declare_params(&mut self, fs: usize, params: &Vec<crate::stmt::Param>) -> (r: Result<Vec<Kind>, CompileError>)
        requires
            old(self).wf(),
            fs < old(self).arena().len(),
        ensures
            final(self).wf(),
            final(self).pool() == old(self).pool(),
            final(self).names() == old(self).names(),
            arena_grows(old(self).arena(), final(self).arena()),
            ok_as(r, ()) == params_run(old(self).models(), fs as int, params@, 0).0,
            final(self).models() == params_run(old(self).models(), fs as int, params@, 0).1,
            r is Ok ==> r->Ok_0@ == params@.map_values(|p: crate::stmt::Param| p.kind),
    {
        let mut kinds: Vec<Kind> = Vec::new();
        let mut j: usize = 0;
        while j < params.len()
            invariant
                self.wf(),
                self.pool() == old(self).pool(),
                self.names() == old(self).names(),
                arena_grows(old(self).arena(), self.arena()),
                fs < self.arena().len(),
                j <= params@.len(),
                kinds@ == params@.take(j as int).map_values(|p: crate::stmt::Param| p.kind),
                params_run(old(self).models(), fs as int, params@, 0) == params_run(self.models(), fs as int, params@, j as int),
            decreases params@.len() - j,
        {
            let p = params[j];
            proof {
                assert(models(self.arena())[fs as int] == self.arena()[fs as int].model());
            }
            self.scopes.add_var(fs, p.name, p.kind.size(), p.kind)?;
            kinds.push(p.kind);
            j = j + 1;
            proof {
                assert(kinds@ =~= params@.take(j as int).map_values(|p: crate::stmt::Param| p.kind));
            }
        }
        proof {
            assert(params@.take(j as int) =~= params@);
        }
        Ok(kinds)
    }

    /// Writes the code of a block: its statements in a new child scope,
    /// then the release of the child's frame.
    #[verifier::rlimit(100)]
    #[verifier::spinoff_prover]
    fn gen_block(&mut self, stmt: &Stmt, out: &mut String, sid: usize) -> (r: Result<bool, CompileError>)
        requires
            old(self).wf(),
            stmt is Block,
            sid < old(self).arena().len(),
        ensures
            final(self).wf(),
            final(self).pool() == old(self).pool(),
            final(self).names() == old(self).names(),
            arena_grows(old(self).arena(), final(self).arena()),
            r == stmt_result(old(self).pool(), old(self).models(), sid as int, *stmt).0,
            final(self).models() == stmt_result(old(self).pool(), old(self).models(), sid as int, *stmt).1,
            final(out)@ == old(out)@ + stmt_code(old(self).pool(), old(self).models(), old(self).names(), sid as int, *stmt),
            r is Ok ==> {
                let c = old(self).arena().len() as int;
                let child = final(self).arena()[c];
                &&& c < final(self).arena().len()
                &&& child.pos_spec() == frame_sum(child.vars(), child.order())
            },
        decreases stmt, 1int,
    {
        let depth = self.scopes.get(sid).gen();
        let ghost m0 = self.models();
        let ghost n0 = self.names();
        let ghost p0 = self.pool();
        let inner = match stmt {
            Stmt::Block { statements } => statements,
            _ => return Ok(false),
        };
        emit(out, depth, "#block#");
        proof {
            assert(self.models()[sid as int] == self.arena()[sid as int].model());
        }
        let b = match self.scopes.open(Some(sid), None, None) {
            Ok(b) => b,
            Err(x) => {
                proof {
                    assert(out@ =~= old(out)@ + stmt_code(p0, m0, n0, sid as int, *stmt)) by {
                        reveal(stmt_code);
                    }
                }
                return Err(x);
            },
        };
        proof {
            assert(decreases_to!(*stmt => *inner));
            assert(self.models() == m0.push(fresh_scope(Some(sid), m0[sid as int].gen + 1, None)));
        }
        let ghost o1 = out@;
        match self.gen_il(inner, out, Some(b)) {
            Ok(()) => {},
            Err(x) => {
                proof {
                    assert(out@ =~= old(out)@ + stmt_code(p0, m0, n0, sid as int, *stmt)) by {
                        reveal(stmt_code);
                    }
                }
                return Err(x);
            },
        }
        let bpos = self.scopes.get(b).pos();
        let bdepth = self.scopes.get(b).gen();
        proof {
            assert(self.models()[b as int] == self.arena()[b as int].model());
        }
        emit_num(out, bdepth, "dcr %i &sp ", bpos);
        proof {
            assert(self.arena()[b as int].wf());
            assert(out@ =~= old(out)@ + stmt_code(p0, m0, n0, sid as int, *stmt)) by {
                reveal(stmt_code);
            }
        }
        Ok(false)
    }

    /// A copy of `v`.
    fn copy_kinds(v: &Vec<Kind>) -> (r: Vec<Kind>)
        ensures
            r@ == v@,
    {
        let mut r: Vec<Kind> = Vec::new();
        let mut i: usize = 0;
        while i < v.len()
            invariant
                i <= v@.len(),
                r@ == v@.take(i as int),
            decreases v@.len() - i,
        {
            r.push(v[i]);
            i = i + 1;
            proof {
                assert(r@ =~= v@.take(i as int));
            }
        }
        proof {
            assert(v@.take(i as int) =~= v@);
        }
        r
    }

    /// Registers a function's signature in the enclosing scope `sid` and in
    /// the function's own scope `fs`.
    fn register_signature(
        &mut self,
        sid: usize,
        fs: usize,
        name: usize,
        arity: usize,
        ret: Kind,
        kinds: Vec<Kind>,
    ) -> (r: Result<(), CompileError>)
        requires
            old(self).wf(),
            sid < fs < old(self).arena().len(),
        ensures
            final(self).wf(),
            final(self).pool() == old(self).pool(),
            final(self).names() == old(self).names(),
            arena_grows(old(self).arena(), final(self).arena()),
            r == register_outcome(old(self).models(), sid as int, fs as int, name, (SigView { arity: arity as nat, returns: ret, params: kinds@ })).0,
            final(self).models() == register_outcome(old(self).models(), sid as int, fs as int, name, (SigView { arity: arity as nat, returns: ret, params: kinds@ })).1,
    {
        let own = Signature { arity: arity, returns: ret, params: Self::copy_kinds(&kinds) };
        let sig = Signature { arity: arity, returns: ret, params: kinds };
        proof {
            assert(models(self.arena())[sid as int] == self.arena()[sid as int].model());
        }
        self.scopes.add_signature(sid, name, sig)?;
        proof {
            assert(models(self.arena())[fs as int] == self.arena()[fs as int].model());
        }
        self.scopes.add_signature(fs, name, own)?;
        Ok(())
    }

    /// Writes the header and label of a function definition.
    fn emit_function_header(out: &mut String, depth: usize, fname: &str, arity: usize, ret: Kind)
        ensures
            final(out)@ == old(out)@ + crate::typing::function_header(depth as nat, fname@, arity as nat, ret),
    {
        emit(out, depth, "#function definition#");
        let mut h = String::from_str("#");
        h.append(fname);
        h.append("(");
        let n = usize_text(arity);
        h.append(n.as_str());
        h.append(") -> ");
        h.append(ret.name());
        h.append("#");
        emit(out, depth, h.as_str());
        emit3(out, depth, fname, ":", "");
        proof {
            assert(out@ =~= old(out)@ + crate::typing::function_header(depth as nat, fname@, arity as nat, ret));
        }
    }

    /// Writes the code of a function definition: its header and label,
    /// declares its parameters in a new function scope, registers its
    /// signature in the enclosing scope and in its own, then writes its body.
    #[verifier::rlimit(100)]
    #[verifier::spinoff_prover]
    fn gen_function(&mut self, stmt: &Stmt, out: &mut String, sid: usize) -> (r: Result<bool, CompileError>)
        requires
            old(self).wf(),
            stmt is Function,
            sid < old(self).arena().len(),
        ensures
            final(self).wf(),
            final(self).pool() == old(self).pool(),
            final(self).names() == old(self).names(),
            arena_grows(old(self).arena(), final(self).arena()),
            r == stmt_result(old(self).pool(), old(self).models(), sid as int, *stmt).0,
            final(self).models() == stmt_result(old(self).pool(), old(self).models(), sid as int, *stmt).1,
            final(out)@ == old(out)@ + stmt_code(old(self).pool(), old(self).models(), old(self).names(), sid as int, *stmt),
        decreases stmt, 1int,
    {
        let depth = self.scopes.get(sid).gen();
        let ghost m0 = self.models();
        let ghost n0 = self.names();
        let ghost p0 = self.pool();
        let (name, params, return_type, body) = match stmt {
            Stmt::Function { name, params, return_type, body } => (name, params, return_type, body),
            _ => return Ok(false),
        };
        let fname = self.symbol_table.resolve(*name);
        Self::emit_function_header(out, depth, fname, params.len(), *return_type);
        proof {
            assert(self.models()[sid as int] == self.arena()[sid as int].model());
        }
        let ghost oh = out@;
        let fs = match self.scopes.open(Some(sid), None, Some(*name)) {
            Ok(fs) => fs,
            Err(x) => {
                proof {
                    assert(out@ =~= old(out)@ + stmt_code(p0, m0, n0, sid as int, *stmt)) by {
                        reveal(stmt_code);
                    }
                }
                return Err(x);
            },
        };
        let kinds = match self.declare_params(fs, params) {
            Ok(k) => k,
            Err(x) => {
                proof {
                    assert(out@ =~= old(out)@ + stmt_code(p0, m0, n0, sid as int, *stmt)) by {
                        reveal(stmt_code);
                    }
                }
                return Err(x);
            },
        };
        match self.register_signature(sid, fs, *name, params.len(), *return_type, kinds) {
            Ok(()) => {},
            Err(x) => {
                proof {
                    assert(out@ =~= old(out)@ + stmt_code(p0, m0, n0, sid as int, *stmt)) by {
                        reveal(stmt_code);
                    }
                }
                return Err(x);
            },
        }
        proof {
            assert(decreases_to!(*stmt => *body));
        }
        let r = self.gen_il(body, out, Some(fs));
        proof {
            assert(out@ =~= old(out)@ + stmt_code(p0, m0, n0, sid as int, *stmt)) by {
                reveal(stmt_code);
            }
        }
        match r {
            Ok(()) => Ok(false),
            Err(x) => Err(x),
        }
    }

    /// Writes the code of one statement in scope `sid`; `true` when it was
    /// a `return`, which ends its statement list.
    #[verifier::rlimit(100)]
    #[verifier::spinoff_prover]
    pub fn gen_stmt(&mut self, stmt: &Stmt, out: &mut String, sid: usize) -> (r: Result<bool, CompileError>)
        requires
            old(self).wf(),
            sid < old(self).arena().len(),
        ensures
            final(self).wf(),
            final(self).pool() == old(self).pool(),
            final(self).names() == old(self).names(),
            arena_grows(old(self).arena(), final(self).arena()),
            r == stmt_result(old(self).pool(), old(self).models(), sid as int, *stmt).0,
            final(self).models() == stmt_result(old(self).pool(), old(self).models(), sid as int, *stmt).1,
            final(out)@ == old(out)@ + stmt_code(old(self).pool(), old(self).models(), old(self).names(), sid as int, *stmt),
        decreases stmt, 2int,
    {
        let ghost m0 = self.models();
        let ghost n0 = self.names();
        let ghost p0 = self.pool();
        let r = match stmt {
            Stmt::Expression { expression } => match self.handle_expression(out, sid, *expression) {
                Ok(_) => Ok(false),
                Err(x) => Err(x),
            },
            Stmt::Print { expression } => match self.gen_print(out, sid, *expression) {
                Ok(()) => Ok(false),
                Err(x) => Err(x),
            },
            Stmt::Var { name, initializer } => match self.gen_var(out, sid, *name, *initializer) {
                Ok(()) => Ok(false),
                Err(x) => Err(x),
            },
            Stmt::Block { .. } => {
                return self.gen_block(stmt, out, sid);
            },
            Stmt::Function { .. } => {
                return self.gen_function(stmt, out, sid);
            },
            Stmt::Return { value } => match self.gen_return(out, sid, *value) {
                Ok(()) => Ok(true),
                Err(x) => Err(x),
            },
            Stmt::If { .. } => Ok(false),
            Stmt::While { .. } => Ok(false),
            Stmt::Class { .. } => Err(CompileError::Unsupported),
        };
        proof {
            assert(out@ =~= old(out)@ + stmt_code(p0, m0, n0, sid as int, *stmt)) by {
                reveal(stmt_code);
            }
        }
        r
    }

    /// Writes the code of `statements` in scope `cur_scope`, or in a new file
    /// scope when none is given. Only function definitions may stand at file
    /// scope (depth 1 or less); a `return` ends the list; a function body of
    /// non-`Void` kind must end in a `return`. A failing statement stops the
    /// list; what earlier statements wrote stays.
    #[verifier::rlimit(100)]
    pub fn gen_il(&mut self, statements: &Vec<Stmt>, out: &mut String, cur_scope: Option<usize>) -> (r: Result<(), CompileError>)
        requires
            old(self).wf(),
            match cur_scope {
                Some(sid) => sid < old(self).arena().len(),
                None => true,
            },
        ensures
            final(self).wf(),
            final(self).pool() == old(self).pool(),
            final(self).names() == old(self).names(),
            arena_grows(old(self).arena(), final(self).arena()),
            r == gen_il_result(old(self).pool(), old(self).models(), cur_scope, statements@).0,
            final(self).models() == gen_il_result(old(self).pool(), old(self).models(), cur_scope, statements@).1,
            final(out)@ == old(out)@ + gen_il_code(old(self).pool(), old(self).models(), old(self).names(), cur_scope, statements@),
            statements@.len() > 0 && !(statements@[0] is Function) && match cur_scope {
                Some(sid) => old(self).arena()[sid as int].gen_spec() <= 1,
                None => true,
            } ==> r == Err::<(), CompileError>(CompileError::TopLevelStatementNotAllowed) && final(out)@ == old(out)@,
        decreases statements, 0int,
    {
        let sid = match cur_scope {
            Some(s) => s,
            None => {
                let s = self.scopes.open(None, None, None);
                match s {
                    Ok(s) => s,
                    Err(e) => return Err(e),
                }
            },
        };
        let ghost start = self.models();
        let ghost names = self.names();
        proof {
            assert(start[sid as int] == self.arena()[sid as int].model());
            if let Some(s0) = cur_scope {
                assert(old(self).models()[s0 as int] == old(self).arena()[s0 as int].model());
            }
        }
        let mut i: usize = 0;
        while i < statements.len()
            invariant
                self.wf(),
                self.pool() == old(self).pool(),
                self.names() == old(self).names(),
                names == self.names(),
                arena_grows(old(self).arena(), self.arena()),
                sid < self.arena().len(),
                start.len() <= self.arena().len(),
                match cur_scope {
                    Some(s) => s == sid && start == old(self).models(),
                    None => start == old(self).models().push(fresh_scope(None, 1, None)) && sid == old(self).arena().len(),
                },
                list_run(old(self).pool(), start, sid as int, statements@, 0)
                    == list_run(self.pool(), self.models(), sid as int, statements@, i as int),
                old(out)@ + list_code(old(self).pool(), start, names, sid as int, statements@, 0)
                    == out@ + list_code(self.pool(), self.models(), names, sid as int, statements@, i as int),
                self.models()[sid as int].gen == start[sid as int].gen,
                i <= statements@.len(),
                i == 0 ==> out@ == old(out)@,
                statements@.len() > 0 && !(statements@[0] is Function) && start[sid as int].gen <= 1 ==> i == 0,
                match cur_scope {
                    Some(s) => old(self).arena()[s as int].gen_spec() == start[sid as int].gen,
                    None => start[sid as int].gen == 1,
                },
            decreases statements@.len() - i,
        {
            let depth = self.scopes.get(sid).gen();
            let stmt = &statements[i];
            let ghost mi = self.models();
            let ghost oi = out@;
            proof {
                assert(self.models()[sid as int] == self.arena()[sid as int].model());
                assert(depth == start[sid as int].gen);
            }
            if depth <= 1 && !matches!(stmt, Stmt::Function { .. }) {
                proof {
                    crate::typing::lemma_list_code_empty(self.pool(), mi, names, sid as int, statements@, i as int);
                    assert(out@ =~= old(out)@ + list_code(old(self).pool(), start, names, sid as int, statements@, 0));
                }
                return Err(CompileError::TopLevelStatementNotAllowed);
            }
            proof {
                assert(*stmt == statements@[i as int]);
                assert(!(statements@.len() > 0 && !(statements@[0] is Function) && start[sid as int].gen <= 1));
                assert(decreases_to!(statements => statements@));
                assert(decreases_to!(statements@ => statements@[i as int]));
            }
            let res = self.gen_stmt(stmt, out, sid);
            proof {
                assert(!(mi[sid as int].gen <= 1 && !(statements@[i as int] is Function)));
                assert(out@ == oi + stmt_code(self.pool(), mi, names, sid as int, statements@[i as int]));
                assert(res == stmt_result(self.pool(), mi, sid as int, statements@[i as int]).0);
                assert(self.models() == stmt_result(self.pool(), mi, sid as int, statements@[i as int]).1);
                crate::typing::lemma_list_code_step(self.pool(), mi, names, sid as int, statements@, i as int);
            }
            let returned = match res {
                Ok(b) => b,
                Err(e) => {
                    proof {
                        assert(out@ =~= old(out)@ + list_code(old(self).pool(), start, names, sid as int, statements@, 0));
                    }
                    return Err(e);
                },
            };
            if returned {
                proof {
                    assert(out@ =~= old(out)@ + list_code(old(self).pool(), start, names, sid as int, statements@, 0));
                }
                return Ok(());
            }
            proof {
                assert(self.models()[sid as int] == self.arena()[sid as int].model());
                assert(out@ + list_code(self.pool(), self.models(), names, sid as int, statements@, i + 1)
                    =~= oi + list_code(self.pool(), mi, names, sid as int, statements@, i as int));
            }
            i = i + 1;
        }
        proof {
            assert(self.models()[sid as int] == self.arena()[sid as int].model());
            crate::typing::lemma_list_code_empty(self.pool(), self.models(), names, sid as int, statements@, i as int);
            assert(out@ =~= old(out)@ + list_code(old(self).pool(), start, names, sid as int, statements@, 0));
        }
        if !self.scopes.get(sid).is_void() {
            return Err(CompileError::MissingReturn);
        }
        Ok(())
    }

}

} // verus!
