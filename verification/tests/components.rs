use dr_script::ast::{ExprKind, StmtKind};
use dr_script::basic_parser::Parser;
use dr_script::error_handler::{format_runtime_error, handle_panic};
use dr_script::errors::{ExpressionError, LexerError, ParseError, ParseErrorKind, RuntimeError, TokensError};
use dr_script::interpreter::Interpretation;
use dr_script::io::{DrScriptIo, IoBuffer};
use dr_script::lexer::lex;
use dr_script::parser::ParserToken;
use dr_script::positions::{Position, Span};
use dr_script::report::runtime_error_debug_string;
use dr_script::token::Token;
use dr_script::values::Type;

fn span(l1: usize, c1: usize, l2: usize, c2: usize) -> Span {
    Span { start: Position { line: l1, column: c1 }, end: Position { line: l2, column: c2 } }
}

#[test]
fn lexer_positions_follow_source() {
    let toks = lex("var x = 5;");
    let kinds: Vec<Token> = toks.iter().map(|t| t.token.clone()).collect();
    assert_eq!(kinds, vec![Token::Var, Token::Ident("x".to_string()), Token::Assign, Token::Number(5), Token::Semicolon]);
    // blanks are skipped without moving the column
    assert_eq!(toks[0].position, span(1, 1, 1, 4));
    assert_eq!(toks[1].position, span(1, 4, 1, 5));
    assert_eq!(toks[2].position, span(1, 5, 1, 6));
    assert_eq!(toks[3].position, span(1, 6, 1, 7));
    assert_eq!(toks[4].position, span(1, 7, 1, 8));
}

#[test]
fn lexer_newline_moves_to_next_line() {
    let toks = lex("a\nb");
    assert_eq!(toks.len(), 2);
    assert_eq!(toks[0].position, span(1, 1, 1, 2));
    assert_eq!(toks[1].token, Token::Ident("b".to_string()));
    assert_eq!(toks[1].position, span(2, 2, 2, 3));
}

#[test]
fn lexer_reads_strings_keywords_and_operators() {
    let toks = lex("ver s = \"hi\"; // note\nfun f() { return s; } a++ <= >= == != use");
    let kinds: Vec<Token> = toks.iter().map(|t| t.token.clone()).collect();
    assert_eq!(
        kinds,
        vec![
            Token::Ver,
            Token::Ident("s".to_string()),
            Token::Assign,
            Token::Str("hi".to_string()),
            Token::Semicolon,
            Token::Fun,
            Token::Ident("f".to_string()),
            Token::LParen,
            Token::RParen,
            Token::LBrace,
            Token::Return,
            Token::Ident("s".to_string()),
            Token::Semicolon,
            Token::RBrace,
            Token::Ident("a".to_string()),
            Token::PlusPlus,
            Token::LessEqual,
            Token::GreaterEqual,
            Token::Equal,
            Token::NotEqual,
            Token::Use,
        ]
    );
}

#[test]
fn lexer_skips_unknown_characters() {
    let toks = lex("a # b");
    assert_eq!(toks.len(), 2);
    assert_eq!(toks[1].position, span(1, 3, 1, 4));
}

#[test]
fn parser_builds_declarations() {
    let mut p = ParserToken::new(lex("var x = 1; ver y = 2;"));
    let stmts = p.parse().unwrap();
    assert_eq!(stmts.len(), 2);
    match &stmts[0].kind {
        StmtKind::Assign { name, value } => {
            assert_eq!(name, "x");
            assert!(matches!(value.kind, ExprKind::Num(1)));
        },
        other => panic!("unexpected {:?}", other),
    }
    match &stmts[1].kind {
        StmtKind::VerDecl { name, mutable, .. } => {
            assert_eq!(name, "y");
            assert!(*mutable);
        },
        other => panic!("unexpected {:?}", other),
    }
}

#[test]
fn parser_operators_bind_by_precedence() {
    let mut p = ParserToken::new(lex("print(1 + 2 * 3 < 4);"));
    let stmts = p.parse().unwrap();
    match &stmts[0].kind {
        StmtKind::Expr(e) => match &e.kind {
            ExprKind::Call { args, .. } => match &args[0].kind {
                ExprKind::Less(l, _) => match &l.kind {
                    ExprKind::Plus(_, r) => assert!(matches!(r.kind, ExprKind::Star(_, _))),
                    other => panic!("unexpected {:?}", other),
                },
                other => panic!("unexpected {:?}", other),
            },
            other => panic!("unexpected {:?}", other),
        },
        other => panic!("unexpected {:?}", other),
    }
}

#[test]
fn parser_reports_expected_token() {
    let mut p = ParserToken::new(lex("var x = 1"));
    let e = p.parse().unwrap_err();
    assert!(matches!(e.kind, ParseErrorKind::Tokens(TokensError::UnexpectedEOF)));
}

#[test]
fn parser_reports_invalid_primary() {
    let mut p = ParserToken::new(lex("var x = ;"));
    let e = p.parse().unwrap_err();
    assert!(matches!(e.kind, ParseErrorKind::ExprError(ExpressionError::InvalidPrimary(Token::Semicolon))));
    assert_eq!(e.span, span(1, 6, 1, 7));
}

#[test]
fn parser_reads_use_with_file_name() {
    let mut p = ParserToken::new(lex("use lib.dr;"));
    let stmts = p.parse().unwrap();
    match &stmts[0].kind {
        StmtKind::Use(name) => assert_eq!(name, "lib.dr"),
        other => panic!("unexpected {:?}", other),
    }
}

#[test]
fn basic_parser_reads_statements() {
    let toks = vec![
        Token::Ver,
        Token::Ident("x".to_string()),
        Token::Assign,
        Token::Number(1),
        Token::Plus,
        Token::Number(2),
        Token::Star,
        Token::Number(3),
        Token::Semicolon,
        Token::Ident("print".to_string()),
        Token::LParen,
        Token::Ident("x".to_string()),
        Token::RParen,
        Token::Semicolon,
        Token::Var,
        Token::Ident("y".to_string()),
        Token::Assign,
        Token::Number(4),
        Token::Semicolon,
    ];
    let stmts = Parser::new(toks).parse();
    assert_eq!(stmts.len(), 3);
    match &stmts[0].kind {
        StmtKind::VerDecl { name, value, mutable } => {
            assert_eq!(name, "x");
            assert!(*mutable);
            match &value.kind {
                ExprKind::Plus(_, r) => assert!(matches!(r.kind, ExprKind::Star(_, _))),
                other => panic!("unexpected {:?}", other),
            }
        },
        other => panic!("unexpected {:?}", other),
    }
    assert!(matches!(stmts[1].kind, StmtKind::Print(_)));
    assert!(matches!(stmts[2].kind, StmtKind::Assign { .. }));
}

#[test]
fn report_string_points_at_source() {
    let e = ParseError::new(
        ParseErrorKind::Runtime(RuntimeError::DivisionByZero),
        span(2, 3, 2, 4),
        Some("main.dr".to_string()),
        Some("ver a = 1;\nprint(a / 0);".to_string()),
    );
    assert_eq!(
        e.get_report_string(),
        "REPORT_START:\nERROR: \"Division by zero\"\n --> main.dr:2:3\n\n2 | print(a / 0);\n  |   ^\n"
    );
}

#[test]
fn runtime_error_messages() {
    assert_eq!(
        ParseErrorKind::Runtime(RuntimeError::UndefinedVariable { name: "q".to_string(), span: span(1, 1, 1, 2) }).message(),
        "Undefined variable `q`"
    );
    assert_eq!(
        ParseErrorKind::Runtime(RuntimeError::ArgumentMismatch { expected: 2, got: 3 }).message(),
        "Argument mismatch: expected 2, got 3"
    );
    assert_eq!(ParseErrorKind::Tokens(TokensError::UnexpectedEOF).message(), "Tokens(UnexpectedEOF)");
}

#[test]
fn runtime_error_span_and_conversion() {
    let e = RuntimeError::ImmutableAssignment { name: "x".to_string(), span: span(3, 1, 3, 7) };
    assert_eq!(e.span(), span(3, 1, 3, 7));
    assert_eq!(RuntimeError::DivisionByZero.span(), Span::default());
    let pe = e.to_parse_error(Some("f.dr".to_string()), None);
    assert_eq!(pe.file, "f.dr");
    assert_eq!(pe.source, "");
    assert_eq!(pe.span, span(3, 1, 3, 7));
    assert!(matches!(pe.kind, ParseErrorKind::Runtime(RuntimeError::ImmutableAssignment { .. })));
}

#[test]
fn runtime_error_debug_text() {
    let e = RuntimeError::UndefinedFunction { name: "g".to_string(), span: span(1, 2, 1, 3) };
    assert_eq!(
        runtime_error_debug_string(&e),
        "UndefinedFunction { name: \"g\", span: Span { start: Position { line: 1, column: 2 }, end: Position { line: 1, column: 3 } } }"
    );
}

#[test]
fn value_arithmetic() {
    assert!(matches!(Type::Int(2).add(Type::Int(3)), Type::Int(5)));
    assert!(matches!(Type::Int(2).sub(Type::Int(3)), Type::Int(-1)));
    assert!(matches!(Type::Int(4).mul(Type::Int(3)), Type::Int(12)));
    assert!(matches!(Type::Int(-7).div(Type::Int(2)), Type::Int(-3)));
    match Type::Str("ab".to_string()).add(Type::Int(1)) {
        Type::Str(s) => assert_eq!(s, "ab1"),
        other => panic!("unexpected {:?}", other),
    }
    let mut v = Type::Int(1);
    v.add_assign(Type::Int(1));
    assert!(matches!(v, Type::Int(2)));
    v.sub_assign(Type::Int(5));
    assert!(matches!(v, Type::Int(-3)));
}

#[test]
fn value_zero_and_equality() {
    assert!(Type::Int(0).is_zero());
    assert!(!Type::Int(1).is_zero());
    assert!(!Type::Str("0".to_string()).is_zero());
    assert!(Type::Str("a".to_string()).eq(&Type::Str("a".to_string())));
    assert!(!Type::Int(1).eq(&Type::Str("1".to_string())));
    assert_eq!(Type::Int(-12).to_text(), "-12");
}

#[test]
fn interpretation_runs_statements() {
    let mut i = Interpretation::new(IoBuffer::new(vec![]));
    let mut p = ParserToken::new(lex("ver a = 2; fun twice(n) { return n * 2; } a = twice(a);"));
    let stmts = p.parse().unwrap();
    assert!(i.run(stmts).is_ok());
    let (vars, funcs) = i.get_vars_funcs();
    match vars.get("a") {
        Some(v) => {
            assert!(matches!(v.value(), Type::Int(4)));
            assert!(v.is_mutable());
        },
        None => panic!("no variable a"),
    }
    assert!(funcs.contains("twice"));
    assert!(!vars.contains("n"));
}

#[test]
fn interpretation_reports_runtime_error() {
    let mut i = Interpretation::new(IoBuffer::new(vec![]));
    let mut p = ParserToken::new(lex("print(x);"));
    let r = i.run(p.parse().unwrap());
    assert!(matches!(r, Err(RuntimeError::UndefinedVariable { .. })));
}

#[test]
fn add_builtin_replaces_by_name() {
    let mut i = Interpretation::new(IoBuffer::new(vec![]));
    let mut b = Interpretation::<IoBuffer>::chars_builtin();
    b.name = "len";
    i.add_builtin(b);
    let mut p = ParserToken::new(lex("print(len(\"Привет\"));"));
    assert!(i.run(p.parse().unwrap()).is_ok());
    assert_eq!(i.io().output(), "6\n");
}

#[test]
fn import_use_runs_module_source() {
    let mut i = Interpretation::new(IoBuffer::new(vec![]));
    assert!(i.import_use("ver z = 9; return 1; print(z);").is_ok());
    assert_eq!(i.io().output(), "9\n");
    let r = i.import_use("ver = ;");
    assert!(matches!(r, Err(RuntimeError::ImportParseError { .. })));
}

#[test]
fn builtin_descriptions() {
    let b = Interpretation::<IoBuffer>::random_builtin();
    assert_eq!(b.name, "random");
    assert_eq!(b.args, Some(2));
    let p = Interpretation::<IoBuffer>::print_builtin();
    assert_eq!(p.name, "print");
    assert_eq!(p.args, None);
}

#[test]
fn error_handler_messages() {
    assert_eq!(format_runtime_error("boom"), "🚨 Ошибка выполнения: boom");
    assert_eq!(handle_panic(), "🚨 Произошла критическая ошибка при выполнении программы");
}

#[test]
fn runtime_error_display_text() {
    let e = RuntimeError::UndefinedVariable { name: "x".to_string(), span: span(1, 1, 1, 2) };
    assert_eq!(e.to_text(), "Undefined variable: x");
    assert_eq!(RuntimeError::DivisionByZero.to_text(), "Division by zero");
    assert_eq!(RuntimeError::ArgumentMismatch { expected: 1, got: 0 }.to_text(), "Argument mismatch: expected 1, got 0");
    let m = RuntimeError::ImmutableAssignment { name: "k".to_string(), span: span(1, 1, 1, 2) };
    assert_eq!(m.to_text(), "Cannot assign to immutable variable: k");
}

#[test]
fn io_buffer_hands_out_lines_and_modules() {
    let mut io = IoBuffer::new(vec!["one".to_string(), "two".to_string()]);
    io.add_module("m.dr".to_string(), "ver a = 1;".to_string());
    assert_eq!(io.input("? "), Ok("one".to_string()));
    assert_eq!(io.input("? "), Ok("two".to_string()));
    assert_eq!(io.input("? "), Err("no input left".to_string()));
    assert_eq!(io.read_module("m.dr"), Ok("ver a = 1;".to_string()));
    assert_eq!(io.read_module("x.dr"), Err("x.dr".to_string()));
    io.print("a");
    io.print("b\n");
    assert_eq!(io.output(), "ab\n");
}

#[test]
fn debug_text_of_characters() {
    assert_eq!(ParseErrorKind::Lexer(LexerError::InvalidCharacter('x')).message(), "Lexer(InvalidCharacter('x'))");
    assert_eq!(ParseErrorKind::Lexer(LexerError::InvalidCharacter('\n')).message(), "Lexer(InvalidCharacter('\\n'))");
}

#[test]
fn tokens_come_in_source_order() {
    let toks = lex("ver a = 1; // one\nprint(a + \"é\");\n\nfun f() { return 2; }");
    assert!(toks.len() > 10);
    for t in toks.iter() {
        assert_eq!(t.position.start.line, t.position.end.line);
        assert!(t.position.start.column < t.position.end.column);
    }
    for w in toks.windows(2) {
        let (a, b) = (&w[0].position, &w[1].position);
        assert!(a.end.line < b.start.line || (a.end.line == b.start.line && a.end.column <= b.start.column));
    }
    assert_eq!(toks.last().unwrap().position.start.line, 4);
}

#[test]
fn parser_of_no_tokens_gives_no_statements() {
    let mut p = ParserToken::new(vec![]);
    let stmts = p.parse().unwrap();
    assert!(stmts.is_empty());
}

#[test]
fn basic_parser_checked_refuses_bad_tokens() {
    assert!(Parser::new(vec![Token::Plus]).parse_checked().is_none());
    let good = vec![Token::Var, Token::Ident("y".to_string()), Token::Assign, Token::Number(4), Token::Semicolon];
    let stmts = Parser::new(good).parse_checked().unwrap();
    assert_eq!(stmts.len(), 1);
    assert!(matches!(stmts[0].kind, StmtKind::Assign { .. }));
}

#[test]
fn lexer_lines_skip_breaks_inside_strings() {
    let toks = lex("\"a\nb\" x\ny");
    assert_eq!(toks.len(), 3);
    assert_eq!(toks[0].token, Token::Str("a\nb".to_string()));
    assert_eq!(toks[1].position.start.line, 1);
    assert_eq!(toks[2].position.start.line, 2);
}

#[test]
fn lexer_width_counts_utf8_bytes() {
    let toks = lex("\"é\" 12");
    assert_eq!(toks.len(), 2);
    assert_eq!(toks[0].position.end.column - toks[0].position.start.column, 4);
    assert_eq!(toks[1].token, Token::Number(12));
    assert_eq!(toks[1].position.end.column - toks[1].position.start.column, 2);
}
