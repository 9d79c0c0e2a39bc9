use rlox_jasm::{CompileError, ErrorToken, Kind, Literal, LoxError, Num, Stmt, Token, TokenType};

#[test]
fn statement_expression_is_extracted() {
    assert_eq!(Stmt::Expression { expression: 3 }.expression(), Some(3));
    assert_eq!(Stmt::Print { expression: 4 }.expression(), Some(4));
    assert_eq!(Stmt::Var { name: 0, initializer: Some(5) }.expression(), Some(5));
    assert_eq!(Stmt::Var { name: 0, initializer: None }.expression(), None);
}

#[test]
fn type_tokens_give_placeholder_literals() {
    match Literal::for_type(TokenType::String) {
        Some(Literal::Str(s)) => assert_eq!(s, ""),
        _ => panic!("expected an empty string literal"),
    }
    match Literal::for_type(TokenType::Number) {
        Some(Literal::Num(n)) => assert_eq!(n, Num { mantissa: 0, scale: 0 }),
        _ => panic!("expected a zero literal"),
    }
    assert!(matches!(Literal::for_type(TokenType::Bool), Some(Literal::False)));
    assert!(matches!(Literal::for_type(TokenType::Void), Some(Literal::Void)));
    assert!(Literal::for_type(TokenType::Plus).is_none());
}

#[test]
fn literal_kinds() {
    assert_eq!(Literal::Str("a".to_string()).kind(), Kind::String);
    assert_eq!(Literal::Num(Num { mantissa: 1, scale: 0 }).kind(), Kind::Number);
    assert_eq!(Literal::True.kind(), Kind::Boolean);
    assert_eq!(Literal::False.kind(), Kind::Boolean);
    assert_eq!(Literal::Void.kind(), Kind::Void);
    assert_eq!(Kind::Number.name(), "Number");
    assert_eq!(Kind::FunctionRef(2).name(), "Function");
}

#[test]
fn compile_errors_become_compilation_errors() {
    match CompileError::ReturnTypeMismatch.to_lox_error() {
        LoxError::CompilationError(m) => {
            assert_eq!(m, "Return type doesn't match with function signature.")
        }
        _ => panic!("expected a compilation error"),
    }
    assert_eq!(CompileError::MissingReturn.message(), "Expected return at the end of function body.");
    assert_eq!(CompileError::ExpectedString.message(), "Expected string");
}

#[test]
fn error_token_spells_out_lexeme() {
    let mut names = rlox_jasm::SymbolTable::new();
    let x = names.add("x".to_string());
    let t = Token::new(TokenType::Identifier, x, Literal::Void, 7);
    let e = ErrorToken::new(&t, &names);
    assert_eq!(e.lexeme, "x");
    assert_eq!(e.line, 7);
    assert_eq!(e.token_type, TokenType::Identifier);
    assert!(matches!(e.literal, Literal::Void));
    let unknown = Token::new(TokenType::Eof, 99, Literal::False, 8);
    assert_eq!(ErrorToken::new(&unknown, &names).lexeme, "");
    assert_eq!(names.resolve(x), "x");
}

#[test]
fn lox_error_texts_carry_their_class() {
    assert_eq!(LoxError::Error("x".to_string()).text(), "Error: x");
    assert_eq!(LoxError::RuntimeError("y".to_string()).text(), "Runtime Error: y");
    assert_eq!(
        CompileError::TypeMismatch.to_lox_error().text(),
        "Error while compiling lox file: Type missmatch."
    );
}

#[test]
fn literal_copy_keeps_value() {
    match Literal::Str("ab".to_string()).copy() {
        Literal::Str(s) => assert_eq!(s, "ab"),
        _ => panic!("expected a string literal"),
    }
    match Literal::Num(Num { mantissa: -7, scale: 1 }).copy() {
        Literal::Num(n) => assert_eq!(n, Num { mantissa: -7, scale: 1 }),
        _ => panic!("expected a number literal"),
    }
}
