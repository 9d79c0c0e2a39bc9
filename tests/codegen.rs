use rlox_jasm::interpreter::compile;
use rlox_jasm::{
    CompileError, Expr, ExprPool, Interpreter, Kind, Literal, LoxError, Num, Param, Stmt, SymbolTable,
    TokenType,
};

struct Prog {
    pool: ExprPool,
    names: SymbolTable,
}

impl Prog {
    fn new() -> Prog {
        Prog { pool: ExprPool::new(), names: SymbolTable::new() }
    }

    fn name(&mut self, s: &str) -> usize {
        self.names.add(s.to_string())
    }

    fn e(&mut self, e: Expr) -> usize {
        self.pool.add(e).unwrap()
    }

    fn num(&mut self, m: i64) -> usize {
        self.e(Expr::Literal { value: Literal::Num(Num { mantissa: m, scale: 0 }) })
    }

    fn text(&mut self, s: &str) -> usize {
        self.e(Expr::Literal { value: Literal::Str(s.to_string()) })
    }

    fn boolean(&mut self, b: bool) -> usize {
        self.e(Expr::Literal { value: if b { Literal::True } else { Literal::False } })
    }

    fn var(&mut self, name: usize) -> usize {
        self.e(Expr::Variable { name })
    }

    fn call(&mut self, f: usize, arguments: Vec<usize>) -> usize {
        let callee = self.var(f);
        self.e(Expr::Call { callee, arguments })
    }

    fn run(self, stmts: Vec<Stmt>) -> (Result<(), CompileError>, String) {
        let mut it = Interpreter::new(self.pool, self.names);
        let mut out = String::new();
        let r = it.gen_il(&stmts, &mut out, None);
        (r, out)
    }
}

fn func(name: usize, params: Vec<Param>, return_type: Kind, body: Vec<Stmt>) -> Stmt {
    Stmt::Function { name, params, return_type, body }
}

fn main_with(p: &mut Prog, body: Vec<Stmt>) -> Vec<Stmt> {
    let m = p.name("main");
    vec![func(m, vec![], Kind::Void, body)]
}

fn run_in_main(mut p: Prog, body: Vec<Stmt>) -> (Result<(), CompileError>, String) {
    let stmts = main_with(&mut p, body);
    p.run(stmts)
}

#[test]
fn call_of_number_function_is_checked_and_emitted() {
    let mut p = Prog::new();
    let f = p.name("f");
    let n = p.name("n");
    let m = p.name("main");
    let nref = p.var(n);
    let five = p.num(5);
    let c = p.call(f, vec![five]);
    let stmts = vec![
        func(
            f,
            vec![Param { name: n, kind: Kind::Number }],
            Kind::Number,
            vec![Stmt::Return { value: Some(nref) }],
        ),
        func(m, vec![], Kind::Void, vec![Stmt::Expression { expression: c }]),
    ];
    let (r, out) = p.run(stmts);
    assert_eq!(r, Ok(()));
    let expected = "\n\t#function definition#\n\t#f(1) -> Number#\n\tf:\
\n\t\t#return eval#\n\t\t#var ref n#\n\t\tmov &bp &ebx\n\t\trda %i\
\n\t\t#return#\n\t\tmov 4 &bl\n\t\tret\
\n\t#function definition#\n\t#main(0) -> Void#\n\tmain:\
\n\t\t#fn ref f#\n\t\t#function call#\n\t\t#parameters#\
\n\t\t#num literal#\n\t\tstc %f 5\
\n\t\t#call#\n\t\tmov 4 &bl\n\t\tcal f";
    assert_eq!(out, expected);
    assert_eq!(out.matches("cal f").count(), 1);
}

#[test]
fn top_level_print_is_rejected_for_placement() {
    let mut p = Prog::new();
    let hi = p.text("hi");
    let (r, out) = p.run(vec![Stmt::Print { expression: hi }]);
    assert_eq!(r, Err(CompileError::TopLevelStatementNotAllowed));
    assert_eq!(out, "");
}

#[test]
fn top_level_number_print_is_rejected_for_placement() {
    let mut p = Prog::new();
    let five = p.num(5);
    let (r, _) = p.run(vec![Stmt::Print { expression: five }]);
    assert_eq!(r, Err(CompileError::TopLevelStatementNotAllowed));
}

#[test]
fn string_variable_assigned_number_is_kind_mismatch() {
    let mut p = Prog::new();
    let s = p.name("s");
    let hi = p.text("hi");
    let five = p.num(5);
    let a = p.e(Expr::Assign { name: s, value: five });
    let (r, _) = run_in_main(
        p,
        vec![Stmt::Var { name: s, initializer: Some(hi) }, Stmt::Expression { expression: a }],
    );
    assert_eq!(r, Err(CompileError::TypeMismatch));
}

#[test]
fn block_releases_its_frame_once() {
    let mut p = Prog::new();
    let x = p.name("x");
    let one = p.num(1);
    let (r, out) = run_in_main(
        p,
        vec![Stmt::Block { statements: vec![Stmt::Var { name: x, initializer: Some(one) }] }],
    );
    assert_eq!(r, Ok(()));
    assert_eq!(out.matches("dcr %i &sp").count(), 1);
    assert!(out.ends_with("\n\t\t\tdcr %i &sp 4"));
    assert!(out.contains("\n\t\t#block#"));
    assert!(out.contains("\n\t\t\t#variable x#"));
}

#[test]
fn non_void_function_without_return_fails() {
    let mut p = Prog::new();
    let f = p.name("f");
    let one = p.num(1);
    let (r, _) = p.run(vec![func(f, vec![], Kind::Number, vec![Stmt::Expression { expression: one }])]);
    assert_eq!(r, Err(CompileError::MissingReturn));
}

#[test]
fn return_nested_in_block_does_not_end_function_body() {
    let mut p = Prog::new();
    let f = p.name("f");
    let one = p.num(1);
    let body = vec![Stmt::Block { statements: vec![Stmt::Return { value: Some(one) }] }];
    let (r, _) = p.run(vec![func(f, vec![], Kind::Number, body)]);
    assert_eq!(r, Err(CompileError::MissingReturn));
}

#[test]
fn void_function_without_return_succeeds() {
    let mut p = Prog::new();
    let one = p.num(1);
    let (r, _) = run_in_main(p, vec![Stmt::Expression { expression: one }]);
    assert_eq!(r, Ok(()));
}

fn return_case(declared: Kind, value: &dyn Fn(&mut Prog) -> Option<usize>) -> Result<(), CompileError> {
    let mut p = Prog::new();
    let f = p.name("f");
    let v = value(&mut p);
    p.run(vec![func(f, vec![], declared, vec![Stmt::Return { value: v }])]).0
}

#[test]
fn return_of_matching_kind_succeeds() {
    assert_eq!(return_case(Kind::Void, &|_| None), Ok(()));
    assert_eq!(return_case(Kind::Number, &|p| Some(p.num(3))), Ok(()));
    assert_eq!(return_case(Kind::String, &|p| Some(p.text("s"))), Ok(()));
    assert_eq!(return_case(Kind::Boolean, &|p| Some(p.boolean(true))), Ok(()));
    assert_eq!(return_case(Kind::FunctionRef(0), &|p| Some(p.var(0))), Ok(()));
}

#[test]
fn return_of_other_kind_fails() {
    assert_eq!(return_case(Kind::Number, &|p| Some(p.text("s"))), Err(CompileError::ReturnTypeMismatch));
    assert_eq!(return_case(Kind::Void, &|p| Some(p.num(1))), Err(CompileError::ReturnTypeMismatch));
    assert_eq!(return_case(Kind::Boolean, &|_| None), Err(CompileError::ReturnTypeMismatch));
    assert_eq!(return_case(Kind::String, &|p| Some(p.boolean(false))), Err(CompileError::ReturnTypeMismatch));
}

#[test]
fn return_emits_sized_return() {
    let mut p = Prog::new();
    let f = p.name("f");
    let t = p.boolean(true);
    let (r, out) = p.run(vec![func(f, vec![], Kind::Boolean, vec![Stmt::Return { value: Some(t) }])]);
    assert_eq!(r, Ok(()));
    assert!(out.ends_with("\n\t\t#bool literal#\n\t\tstc %b 1\n\t\t#return#\n\t\tmov 1 &bl\n\t\tret"));
}

fn call_with(params: Vec<Kind>, args: &dyn Fn(&mut Prog) -> Vec<usize>) -> Result<(), CompileError> {
    let mut p = Prog::new();
    let f = p.name("f");
    let m = p.name("main");
    let params: Vec<Param> = params
        .into_iter()
        .enumerate()
        .map(|(i, kind)| Param { name: 100 + i, kind })
        .collect();
    let a = args(&mut p);
    let c = p.call(f, a);
    let stmts = vec![
        func(f, params, Kind::Void, vec![]),
        func(m, vec![], Kind::Void, vec![Stmt::Expression { expression: c }]),
    ];
    p.run(stmts).0
}

#[test]
fn call_with_wrong_argument_count_fails() {
    assert_eq!(call_with(vec![Kind::Number], &|_| vec![]), Err(CompileError::ArityMismatch));
    assert_eq!(
        call_with(vec![Kind::Number], &|p| vec![p.num(1), p.num(2)]),
        Err(CompileError::ArityMismatch)
    );
}

#[test]
fn call_with_wrong_argument_kind_fails() {
    assert_eq!(
        call_with(vec![Kind::Number, Kind::String], &|p| vec![p.num(1), p.num(2)]),
        Err(CompileError::ArgumentTypeMismatch)
    );
}

#[test]
fn call_with_matching_arguments_succeeds() {
    assert_eq!(
        call_with(vec![Kind::Number, Kind::String, Kind::Boolean], &|p| vec![
            p.num(1),
            p.text("a"),
            p.boolean(false)
        ]),
        Ok(())
    );
}

#[test]
fn call_result_kind_is_declared_return_kind() {
    let mut p = Prog::new();
    let f = p.name("f");
    let r = p.name("r");
    let one = p.num(1);
    let c = p.call(f, vec![]);
    let rref = p.var(r);
    let body = vec![
        Stmt::Var { name: r, initializer: Some(c) },
        Stmt::Print { expression: rref },
    ];
    let m = p.name("main");
    let stmts = vec![
        func(f, vec![], Kind::String, vec![Stmt::Return { value: Some(one) }]),
        func(m, vec![], Kind::Void, body),
    ];
    assert_eq!(p.run(stmts).0, Err(CompileError::ReturnTypeMismatch));

    let mut p = Prog::new();
    let f = p.name("f");
    let s = p.text("s");
    let c = p.call(f, vec![]);
    let m = p.name("main");
    let stmts = vec![
        func(f, vec![], Kind::String, vec![Stmt::Return { value: Some(s) }]),
        func(m, vec![], Kind::Void, vec![Stmt::Print { expression: c }]),
    ];
    assert_eq!(p.run(stmts).0, Ok(()));
}

#[test]
fn arguments_of_total_size_256_fail() {
    let params = vec![Kind::Number; 64];
    assert_eq!(
        call_with(params, &|p| (0..64).map(|_| p.num(1)).collect()),
        Err(CompileError::ArgumentsTooLarge)
    );
}

#[test]
fn arguments_of_total_size_255_succeed() {
    let mut params = vec![Kind::Number; 63];
    params.extend(vec![Kind::Boolean; 3]);
    let r = call_with(params, &|p| {
        let mut v: Vec<usize> = (0..63).map(|_| p.num(1)).collect();
        v.extend((0..3).map(|_| p.boolean(true)));
        v
    });
    assert_eq!(r, Ok(()));
}

#[test]
fn unknown_name_fails() {
    let mut p = Prog::new();
    let x = p.name("x");
    let xr = p.var(x);
    let (r, _) = run_in_main(p, vec![Stmt::Expression { expression: xr }]);
    assert_eq!(r, Err(CompileError::UnknownName(x)));
}

#[test]
fn assignment_to_undeclared_variable_fails() {
    let mut p = Prog::new();
    let x = p.name("x");
    let one = p.num(1);
    let a = p.e(Expr::Assign { name: x, value: one });
    let (r, _) = run_in_main(p, vec![Stmt::Expression { expression: a }]);
    assert_eq!(r, Err(CompileError::UnknownName(x)));
}

#[test]
fn print_of_number_literal_fails() {
    let mut p = Prog::new();
    let one = p.num(1);
    let (r, _) = run_in_main(p, vec![Stmt::Print { expression: one }]);
    assert_eq!(r, Err(CompileError::ExpectedString));
}

#[test]
fn print_of_number_variable_succeeds() {
    let mut p = Prog::new();
    let x = p.name("x");
    let one = p.num(1);
    let xr = p.var(x);
    let (r, out) = run_in_main(
        p,
        vec![Stmt::Var { name: x, initializer: Some(one) }, Stmt::Print { expression: xr }],
    );
    assert_eq!(r, Ok(()));
    assert!(out.contains("\n\t\t#Print#"));
    assert!(out.ends_with("\n\t\tmov &ecx &sp"));
}

#[test]
fn variable_without_initializer_fails() {
    let mut p = Prog::new();
    let x = p.name("x");
    let (r, _) = run_in_main(p, vec![Stmt::Var { name: x, initializer: None }]);
    assert_eq!(r, Err(CompileError::MissingInitializer));
}

#[test]
fn duplicate_variable_declaration_fails() {
    let mut p = Prog::new();
    let x = p.name("x");
    let one = p.num(1);
    let two = p.num(2);
    let (r, _) = run_in_main(
        p,
        vec![
            Stmt::Var { name: x, initializer: Some(one) },
            Stmt::Var { name: x, initializer: Some(two) },
        ],
    );
    assert_eq!(r, Err(CompileError::DuplicateName(x)));
}

#[test]
fn shadowing_variable_in_block_succeeds() {
    let mut p = Prog::new();
    let x = p.name("x");
    let one = p.num(1);
    let t = p.boolean(true);
    let (r, out) = run_in_main(
        p,
        vec![
            Stmt::Var { name: x, initializer: Some(one) },
            Stmt::Block { statements: vec![Stmt::Var { name: x, initializer: Some(t) }] },
        ],
    );
    assert_eq!(r, Ok(()));
    assert!(out.ends_with("\n\t\t\tdcr %i &sp 1"));
}

#[test]
fn duplicate_function_declaration_fails() {
    let mut p = Prog::new();
    let f = p.name("f");
    let (r, _) = p.run(vec![func(f, vec![], Kind::Void, vec![]), func(f, vec![], Kind::Void, vec![])]);
    assert_eq!(r, Err(CompileError::DuplicateName(f)));
}

#[test]
fn mismatched_operands_fail() {
    let mut p = Prog::new();
    let one = p.num(1);
    let s = p.text("a");
    let b = p.e(Expr::Binary { left: one, operator: TokenType::Plus, right: s });
    let (r, _) = run_in_main(p, vec![Stmt::Expression { expression: b }]);
    assert_eq!(r, Err(CompileError::OperandTypeMismatch));
}

#[test]
fn addition_yields_left_kind_and_emits_add() {
    let mut p = Prog::new();
    let one = p.num(1);
    let two = p.num(2);
    let b = p.e(Expr::Binary { left: one, operator: TokenType::Plus, right: two });
    let (r, out) = run_in_main(p, vec![Stmt::Expression { expression: b }]);
    assert_eq!(r, Ok(()));
    assert!(out.ends_with("\n\t\tstc %f 1\n\t\t#num literal#\n\t\tstc %f 2\n\t\tadd %f"));
}

#[test]
fn other_binary_operators_are_unsupported() {
    let mut p = Prog::new();
    let one = p.num(1);
    let two = p.num(2);
    let b = p.e(Expr::Binary { left: one, operator: TokenType::Minus, right: two });
    let (r, _) = run_in_main(p, vec![Stmt::Expression { expression: b }]);
    assert_eq!(r, Err(CompileError::Unsupported));
}

#[test]
fn void_assignment_fails() {
    let mut p = Prog::new();
    let v = p.name("v");
    let one = p.num(1);
    let u1 = p.e(Expr::Unary { operator: TokenType::Minus, right: one });
    let u2 = p.e(Expr::Unary { operator: TokenType::Minus, right: one });
    let a = p.e(Expr::Assign { name: v, value: u2 });
    let (r, _) = run_in_main(
        p,
        vec![Stmt::Var { name: v, initializer: Some(u1) }, Stmt::Expression { expression: a }],
    );
    assert_eq!(r, Err(CompileError::VoidAssignment));
}

#[test]
fn function_assignment_fails() {
    let mut p = Prog::new();
    let g = p.name("g");
    let h = p.name("h");
    let f1 = p.var(h);
    let f2 = p.var(h);
    let a = p.e(Expr::Assign { name: g, value: f2 });
    let m = p.name("main");
    let stmts = vec![
        func(h, vec![], Kind::Void, vec![]),
        func(
            m,
            vec![],
            Kind::Void,
            vec![Stmt::Var { name: g, initializer: Some(f1) }, Stmt::Expression { expression: a }],
        ),
    ];
    assert_eq!(p.run(stmts).0, Err(CompileError::FunctionAssignment));
}

#[test]
fn string_assignment_frees_old_string() {
    let mut p = Prog::new();
    let s = p.name("s");
    let a1 = p.text("a");
    let a2 = p.text("bc");
    let a = p.e(Expr::Assign { name: s, value: a2 });
    let (r, out) = run_in_main(
        p,
        vec![Stmt::Var { name: s, initializer: Some(a1) }, Stmt::Expression { expression: a }],
    );
    assert_eq!(r, Ok(()));
    assert!(out.contains("\n\t\t#string assignment#"));
    assert!(out.contains("\n\t\tdel\n"));
    assert!(out.contains("\n\t\traw 2 \"bc\" ;\n\t\tmov 6 &ecx\n\t\talc"));
}

#[test]
fn number_assignment_stores_value() {
    let mut p = Prog::new();
    let b = p.name("b");
    let x = p.name("x");
    let t = p.boolean(true);
    let one = p.num(1);
    let two = p.num(2);
    let a = p.e(Expr::Assign { name: x, value: two });
    let (r, out) = run_in_main(
        p,
        vec![
            Stmt::Var { name: b, initializer: Some(t) },
            Stmt::Var { name: x, initializer: Some(one) },
            Stmt::Expression { expression: a },
        ],
    );
    assert_eq!(r, Ok(()));
    assert!(out.contains("\n\t\t#assignment 1#"));
    assert!(out.ends_with("\n\t\t#assignment#\n\t\tmov &bp &ebx\n\t\tinc %i &ebx 1\n\t\tldc %i\n\t\tpop %i"));
}

#[test]
fn non_ascii_string_fails() {
    let mut p = Prog::new();
    let s = p.text("héllo");
    let (r, _) = run_in_main(p, vec![Stmt::Print { expression: s }]);
    assert_eq!(r, Err(CompileError::NonAsciiString));
}

#[test]
fn calling_a_number_fails() {
    let mut p = Prog::new();
    let one = p.num(1);
    let c = p.e(Expr::Call { callee: one, arguments: vec![] });
    let (r, _) = run_in_main(p, vec![Stmt::Expression { expression: c }]);
    assert_eq!(r, Err(CompileError::NotCallable));
}

#[test]
fn recursive_call_succeeds() {
    let mut p = Prog::new();
    let f = p.name("f");
    let c = p.call(f, vec![]);
    let (r, out) = p.run(vec![func(f, vec![], Kind::Void, vec![Stmt::Expression { expression: c }])]);
    assert_eq!(r, Ok(()));
    assert!(out.ends_with("\n\t\tcal f"));
}

#[test]
fn forward_call_fails() {
    let mut p = Prog::new();
    let m = p.name("main");
    let g = p.name("g");
    let c = p.call(g, vec![]);
    let stmts = vec![
        func(m, vec![], Kind::Void, vec![Stmt::Expression { expression: c }]),
        func(g, vec![], Kind::Void, vec![]),
    ];
    assert_eq!(p.run(stmts).0, Err(CompileError::UnknownName(g)));
}

#[test]
fn return_outside_function_fails() {
    let mut it = Interpreter::new(ExprPool::new(), SymbolTable::new());
    let mut out = String::new();
    let s = it.new_scope(None, Some(2), None).unwrap();
    assert_eq!(it.scopes().get(s).gen(), 2);
    let r = it.gen_il(&vec![Stmt::Return { value: None }], &mut out, Some(s));
    assert_eq!(r, Err(CompileError::ReturnOutsideFunction));
    let root = it.new_scope(None, None, None).unwrap();
    let r = it.gen_il(&vec![Stmt::Return { value: None }], &mut out, Some(root));
    assert_eq!(r, Err(CompileError::TopLevelStatementNotAllowed));
    assert_eq!(it.get_globals(), Some(0));
}

#[test]
fn class_and_void_literal_are_unsupported() {
    let mut p = Prog::new();
    let c = p.name("C");
    let (r, _) = run_in_main(p, vec![Stmt::Class { name: c, superclass: None, methods: vec![] }]);
    assert_eq!(r, Err(CompileError::Unsupported));
    let mut p = Prog::new();
    let v = p.e(Expr::Literal { value: Literal::Void });
    let (r, _) = run_in_main(p, vec![Stmt::Expression { expression: v }]);
    assert_eq!(r, Err(CompileError::Unsupported));
}

#[test]
fn if_and_while_emit_nothing() {
    let mut p = Prog::new();
    let t = p.boolean(true);
    let body = vec![
        Stmt::If { condition: t, then_branch: Box::new(Stmt::Return { value: None }), else_branch: None },
        Stmt::While { condition: t, body: Box::new(Stmt::Return { value: None }) },
    ];
    let (r, out) = run_in_main(p, body);
    assert_eq!(r, Ok(()));
    assert_eq!(out, "\n\t#function definition#\n\t#main(0) -> Void#\n\tmain:");
}

#[test]
fn unknown_expression_index_fails() {
    let p = Prog::new();
    let (r, _) = run_in_main(p, vec![Stmt::Expression { expression: 42 }]);
    assert_eq!(r, Err(CompileError::UnknownExpression));
}

#[test]
fn pool_rejects_forward_references() {
    let mut pool = ExprPool::new();
    assert_eq!(pool.add(Expr::Grouping { expression: 0 }), None);
    assert_eq!(pool.add(Expr::This), Some(0));
    assert_eq!(pool.add(Expr::Call { callee: 0, arguments: vec![0, 1] }), None);
    assert_eq!(pool.add(Expr::Call { callee: 0, arguments: vec![0] }), Some(1));
    assert_eq!(pool.len(), 2);
}

#[test]
fn decimal_literal_is_printed_with_its_scale() {
    let mut p = Prog::new();
    let d = p.e(Expr::Literal { value: Literal::Num(Num::new(-150, 2).unwrap()) });
    let (r, out) = run_in_main(p, vec![Stmt::Expression { expression: d }]);
    assert_eq!(r, Ok(()));
    assert!(out.ends_with("\n\t\t#num literal#\n\t\tstc %f -1.50"));
    assert!(Num::new(1, 29).is_none());
}

#[test]
fn labels_count_up() {
    let mut it = Interpreter::new(ExprPool::new(), SymbolTable::new());
    assert_eq!(it.gen_label("L"), "L0");
    assert_eq!(it.gen_label("loop_"), "loop_1");
    for _ in 0..8 {
        it.gen_label("x");
    }
    assert_eq!(it.gen_label("L"), "L10");
    assert_eq!(it.get_globals(), None);
}

#[test]
fn compile_returns_listing_or_error() {
    let mut p = Prog::new();
    let hi = p.text("hi");
    let stmts = main_with(&mut p, vec![Stmt::Print { expression: hi }]);
    let out = compile(p.pool, p.names, &stmts).unwrap();
    assert!(out.starts_with("\n\t#function definition#\n\t#main(0) -> Void#\n\tmain:\n\t\t#str literal#\n\t\traw 2 \"hi\" ;"));
    let mut p = Prog::new();
    let hi = p.text("hi");
    match compile(p.pool, p.names, &vec![Stmt::Print { expression: hi }]) {
        Err(LoxError::CompilationError(m)) => assert_eq!(m, "Top level statements are not allowed."),
        _ => panic!("expected a compilation error"),
    }
}

#[test]
fn kind_sizes() {
    assert_eq!(Kind::Void.size(), 0);
    assert_eq!(Kind::Boolean.size(), 1);
    assert_eq!(Kind::Number.size(), 4);
    assert_eq!(Kind::String.size(), 4);
    assert_eq!(Kind::FunctionRef(3).size(), 4);
    assert!(Kind::FunctionRef(1).same_shape(&Kind::FunctionRef(2)));
    assert!(!Kind::Number.same_shape(&Kind::String));
}
