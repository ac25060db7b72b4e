use rmonkey::ast::{Expr, Program, Stmt};
use rmonkey::builtin::{builtins, first, last, len, push, rest};
use rmonkey::error::{EvalErrorKind, RMonkeyError};
use rmonkey::evaluator::{evaluate, Evaluator, DEFAULT_MAX_DEPTH};
use rmonkey::lexer::Lexer;
use rmonkey::object::{Builtin, Object};
use rmonkey::operator::{Infix, Prefix};
use rmonkey::parser::{parse, Parser};
use rmonkey::precedence::Precedence;
use rmonkey::scope::Scope;
use rmonkey::token::{look_up_ident, Token};

fn run(input: &str) -> String {
    let mut e = Evaluator::new();
    match e.eval(parse(input).unwrap()) {
        Ok(r) => r.to_string(),
        Err(e) => e.to_string(),
    }
}

fn tokens(input: &str) -> Vec<Token> {
    Lexer::new(input).tokenize()
}

#[test]
fn division_rounds_towards_zero() {
    assert_eq!(run("7 / 2"), "3");
    assert_eq!(run("-7 / 2"), "-3");
    assert_eq!(run("7 / -2"), "-3");
    assert_eq!(run("-7 / -2"), "3");
    assert_eq!(run("0 / 5"), "0");
    assert_eq!(run("1 / 9223372036854775807"), "0");
}

#[test]
fn division_by_zero_is_an_error() {
    assert_eq!(run("1 / 0"), "division by zero");
    let mut e = Evaluator::new();
    let err = e.eval(parse("5 / (3 - 3)").unwrap()).unwrap_err();
    assert!(matches!(
        err,
        RMonkeyError::EvalError(EvalErrorKind::DivisionByZero)
    ));
}

#[test]
fn least_integer_divided_by_minus_one_wraps() {
    assert_eq!(
        run("(0 - 9223372036854775807 - 1) / -1"),
        "-9223372036854775808"
    );
}

#[test]
fn arithmetic_wraps_around() {
    assert_eq!(run("9223372036854775807 + 1"), "-9223372036854775808");
    assert_eq!(run("0 - 9223372036854775807 - 2"), "9223372036854775807");
    assert_eq!(run("9223372036854775807 * 2"), "-2");
    assert_eq!(run("-(0 - 9223372036854775807 - 1)"), "-9223372036854775808");
}

#[test]
fn double_negation_gives_truthiness() {
    assert_eq!(run("!!0"), "true");
    assert_eq!(run("!!1"), "true");
    assert_eq!(run(r#"!!"""#), "true");
    assert_eq!(run("!!true"), "true");
    assert_eq!(run("!!false"), "false");
    assert_eq!(run("!!if (false) { 1 }"), "false");
    assert_eq!(run("!![]"), "true");
}

#[test]
fn display_is_fully_parenthesized() {
    let program = parse("a + b * c").unwrap();
    assert_eq!(program.stmts.len(), 1);
    assert_eq!(program.stmts[0].to_string(), "(a + (b * c))");
    let again = parse(&program.stmts[0].to_string()).unwrap();
    assert_eq!(again.stmts[0].to_string(), "(a + (b * c))");
}

#[test]
fn closure_sees_later_binding_in_its_scope() {
    assert_eq!(run("let x = 1; let f = fn(){x}; let x = 2; f();"), "2");
}

#[test]
fn closures_share_their_scope() {
    assert_eq!(
        run("let even = fn(n) { if (n == 0) { true } else { odd(n - 1) } }; let odd = fn(n) { if (n == 0) { false } else { even(n - 1) } }; even(10);"),
        "true"
    );
}

#[test]
fn parameter_shadows_without_changing_outer_binding() {
    assert_eq!(run("let x = 1; let f = fn(x) { x }; f(5) + x;"), "6");
    assert_eq!(run("let x = 1; let f = fn() { let x = 7; x }; f() + x;"), "8");
}

#[test]
fn lookup_walks_all_enclosing_scopes() {
    assert_eq!(
        run("let a = 1; let f = fn() { fn() { fn() { a } } }; f()()();"),
        "1"
    );
}

#[test]
fn immediately_called_function_literal() {
    assert_eq!(run("fn(x, y){ x + y }(5, 5)"), "10");
}

#[test]
fn extra_arguments_are_dropped_and_missing_ones_unbound() {
    assert_eq!(run("fn(x){ x }(1, 2, 3)"), "1");
    assert_eq!(run("fn(x, y){ y }(1)"), "identifier not found: y");
}

#[test]
fn hash_index_by_string() {
    assert_eq!(run(r#"{"one": 10 - 9, "two": 5}["one"]"#), "1");
}

#[test]
fn hash_keys_of_three_kinds() {
    assert_eq!(run(r#"{1: "a", true: "b", "c": 3}[1]"#), "\"a\"");
    assert_eq!(run(r#"{1: "a", true: "b", "c": 3}[true]"#), "\"b\"");
    assert_eq!(run(r#"{1: "a", true: "b", "c": 3}["c"]"#), "3");
    assert_eq!(run(r#"{1: "a"}[2]"#), "null");
}

#[test]
fn later_duplicate_key_overwrites_in_place() {
    assert_eq!(
        run(r#"{"a": 1, "b": 2, "a": 3}"#),
        r#"{"a": 3, "b": 2}"#
    );
}

#[test]
fn unhashable_key_is_an_error() {
    assert_eq!(run("{[1]: 2}"), "unusable as hash key: ARRAY");
    assert_eq!(run(r#"{"a": 1}[[1]]"#), "unusable as hash key: ARRAY");
    assert_eq!(run("{fn(x){x}: 2}"), "unusable as hash key: FUNCTION");
}

#[test]
fn index_on_other_values_is_an_error() {
    assert_eq!(run("1[0]"), "index operator not supported: INTEGER[INTEGER]");
    assert_eq!(
        run(r#"[1, 2]["a"]"#),
        "index operator not supported: ARRAY[STRING]"
    );
}

#[test]
fn array_index_out_of_range_is_null() {
    assert_eq!(run("[1, 2, 3][3]"), "null");
    assert_eq!(run("[1, 2, 3][-1]"), "null");
    assert_eq!(run("[1, 2, 3][9223372036854775807]"), "null");
    assert_eq!(run("[][0]"), "null");
}

#[test]
fn evaluation_errors() {
    assert_eq!(run("foobar"), "identifier not found: foobar");
    assert_eq!(run("5 + true"), "type mismatch: INTEGER + BOOLEAN");
    assert_eq!(run("true + false"), "unknown operator: BOOLEAN + BOOLEAN");
    assert_eq!(run(r#""a" - "b""#), "unknown operator: STRING - STRING");
    assert_eq!(run("-true"), "unknown prefix operator; -BOOLEAN");
    assert_eq!(run("[1] + [2]"), "unknown operator: ARRAY + ARRAY");
    assert_eq!(run("5(1)"), "custom error: ");
    assert_eq!(run("5; true + 1; 7"), "type mismatch: BOOLEAN + INTEGER");
}

#[test]
fn error_variants_carry_their_parts() {
    let mut e = Evaluator::new();
    match e.eval(parse("1 + true").unwrap()) {
        Err(RMonkeyError::EvalError(EvalErrorKind::TypeMismatch { op, left, right })) => {
            assert_eq!(op, Infix::Plus);
            assert_eq!(left, "INTEGER");
            assert_eq!(right, "BOOLEAN");
        }
        other => panic!("{:?}", other),
    }
    match e.eval(parse(r#"-"a""#).unwrap()) {
        Err(RMonkeyError::EvalError(EvalErrorKind::UnknownPrefixOperator { op, right })) => {
            assert_eq!(op, Prefix::Minus);
            assert_eq!(right, "STRING");
        }
        other => panic!("{:?}", other),
    }
    match e.eval(parse("nothing").unwrap()) {
        Err(RMonkeyError::EvalError(EvalErrorKind::UncaughtRef { ident })) => {
            assert_eq!(ident, "nothing");
        }
        other => panic!("{:?}", other),
    }
}

#[test]
fn string_concatenation() {
    assert_eq!(run(r#""Hello" + " " + "World!""#), "\"Hello World!\"");
}

#[test]
fn strings_keep_backslashes() {
    assert_eq!(run(r#""a\nb""#), "\"a\\nb\"");
    assert_eq!(run(r#"len("a\nb")"#), "4");
}

#[test]
fn len_counts_characters() {
    assert_eq!(run("len(\"h\u{e9}llo\")"), "5");
}

#[test]
fn return_ends_the_program() {
    assert_eq!(run("9; return 2 * 5; 9;"), "10");
    assert_eq!(run("let f = fn() { return 1; 2 }; f() + 1"), "2");
}

#[test]
fn empty_program_is_null() {
    assert_eq!(run(""), "null");
    assert_eq!(run("let a = 1;"), "null");
}

#[test]
fn call_depth_is_limited() {
    let source = "let f = fn(n){ if (n == 0) { 0 } else { f(n - 1) } }; f(10);";
    let mut deep = Evaluator::with_max_depth(11);
    assert_eq!(deep.eval(parse(source).unwrap()).unwrap().to_string(), "0");
    let mut shallow = Evaluator::with_max_depth(10);
    let err = shallow.eval(parse(source).unwrap()).unwrap_err();
    assert!(matches!(
        err,
        RMonkeyError::EvalError(EvalErrorKind::CallDepthExceeded)
    ));
    assert_eq!(err.to_string(), "call depth exceeded");
    let mut endless = Evaluator::with_max_depth(16);
    let err = endless
        .eval(parse("let f = fn(){ f() }; f();").unwrap())
        .unwrap_err();
    assert_eq!(err.to_string(), "call depth exceeded");
    assert_eq!(DEFAULT_MAX_DEPTH, 200);
}

#[test]
fn evaluator_keeps_bindings_between_programs() {
    let mut e = Evaluator::new();
    assert_eq!(e.eval(parse("let a = 5;").unwrap()).unwrap().to_string(), "null");
    assert!(e.eval(parse("a + nope").unwrap()).is_err());
    assert_eq!(e.eval(parse("a * 2").unwrap()).unwrap().to_string(), "10");
    assert_eq!(e.get("a").unwrap().to_string(), "5");
    assert!(e.get("b").is_none());
    e.set_val_to_env("b".to_string(), Object::Int(7));
    assert_eq!(e.eval(parse("a + b").unwrap()).unwrap().to_string(), "12");
}

#[test]
fn error_inside_a_call_leaves_the_caller_scope_current() {
    let mut e = Evaluator::new();
    assert!(e
        .eval(parse("let x = 1; let f = fn(x) { x + true }; f(2);").unwrap())
        .is_err());
    assert_eq!(e.eval(parse("x").unwrap()).unwrap().to_string(), "1");
}

#[test]
fn puts_collects_lines() {
    let mut e = Evaluator::new();
    let r = e
        .eval(parse(r#"puts(1, "two", [3, true]); puts(); puts(fn(x){x})"#).unwrap())
        .unwrap();
    assert_eq!(r.to_string(), "null");
    assert_eq!(
        e.take_output(),
        vec!["1", "\"two\"", "[3, true]", "fn(x){x}"]
    );
    assert!(e.take_output().is_empty());
}

#[test]
fn builtin_functions_directly() {
    let arr = |v: Vec<i64>| Object::Array {
        elements: v.into_iter().map(Object::Int).collect(),
    };
    assert_eq!(len(vec![arr(vec![1, 2, 3])]).unwrap().to_string(), "3");
    assert_eq!(len(vec![Object::String("four".into())]).unwrap().to_string(), "4");
    assert_eq!(
        len(vec![]).unwrap_err().to_string(),
        "custom error: wrong number of args. got=0, want=1"
    );
    assert_eq!(
        len(vec![Object::Bool(true)]).unwrap_err().to_string(),
        "custom error: arg to `len` not supported, got BOOLEAN"
    );
    assert_eq!(first(vec![arr(vec![4, 5])]).unwrap().to_string(), "4");
    assert_eq!(first(vec![arr(vec![])]).unwrap().to_string(), "null");
    assert_eq!(first(vec![Object::Int(1)]).unwrap().to_string(), "null");
    assert_eq!(
        first(vec![Object::Int(1), Object::Int(2)]).unwrap_err().to_string(),
        "custom error: wrong number of args. got=2, want=1"
    );
    assert_eq!(last(vec![arr(vec![4, 5])]).unwrap().to_string(), "5");
    assert_eq!(
        last(vec![arr(vec![])]).unwrap_err().to_string(),
        "custom error: elements is empty"
    );
    assert_eq!(
        last(vec![Object::Null]).unwrap_err().to_string(),
        "custom error: argument to `last` must be ARRAY, got NULL"
    );
    assert_eq!(rest(vec![arr(vec![4, 5, 6])]).unwrap().to_string(), "[5, 6]");
    assert_eq!(rest(vec![arr(vec![4])]).unwrap().to_string(), "[]");
    assert_eq!(rest(vec![arr(vec![])]).unwrap().to_string(), "null");
    assert_eq!(
        rest(vec![Object::Int(3)]).unwrap_err().to_string(),
        "custom error: argument to `rest` must be ARRAY, got INTEGER"
    );
    let before = arr(vec![1]);
    let pushed = push(vec![before.clone(), Object::Int(2)]).unwrap();
    assert_eq!(pushed.to_string(), "[1, 2]");
    assert_eq!(before.to_string(), "[1]");
    assert_eq!(
        push(vec![Object::Int(1), Object::Int(2)]).unwrap_err().to_string(),
        "custom error: argument to `push` must be ARRAY, got INTEGER"
    );
    assert_eq!(
        push(vec![arr(vec![])]).unwrap_err().to_string(),
        "custom error: wrong number of args. got=1, want=2"
    );
}

#[test]
fn push_leaves_the_array_as_it_was() {
    assert_eq!(run("let a = [1]; let b = push(a, 2); a"), "[1]");
    assert_eq!(run("let a = [1]; let b = push(a, 2); b"), "[1, 2]");
}

#[test]
fn table_of_builtins() {
    let table = builtins();
    let names: Vec<&str> = table.iter().map(|(name, _)| name.as_str()).collect();
    assert_eq!(names, vec!["len", "first", "last", "rest", "push", "puts"]);
    assert!(matches!(table[0].1, Object::BuiltIn { func: Builtin::Len }));
    assert_eq!(run("len"), "[builtin func]");
    assert_eq!(run("let len = 3; len"), "3");
}

#[test]
fn object_kinds_and_display() {
    assert_eq!(Object::Int(-3).obj_type(), "INTEGER");
    assert_eq!(Object::Bool(true).obj_type(), "BOOLEAN");
    assert_eq!(Object::Null.obj_type(), "NULL");
    assert_eq!(Object::String("s".into()).obj_type(), "STRING");
    assert_eq!(Object::ReturnValue(Box::new(Object::Null)).obj_type(), "RETURN_VALUE");
    assert_eq!(Object::Array { elements: vec![] }.obj_type(), "ARRAY");
    assert_eq!(Object::Hash(vec![]).obj_type(), "HASH");
    assert_eq!(Object::BuiltIn { func: Builtin::Puts }.obj_type(), "BUILTIN");
    assert_eq!(run("fn(x) { x }").as_str(), "fn(x){x}");
    assert_eq!(
        Object::ReturnValue(Box::new(Object::Int(1))).to_string(),
        "return 1"
    );
    assert_eq!(Object::Array { elements: vec![] }.to_string(), "[]");
    assert_eq!(Object::Hash(vec![]).to_string(), "{}");
    assert_eq!(Object::Int(i64::MIN).to_string(), "-9223372036854775808");
    assert_eq!(Object::Int(i64::MAX).to_string(), "9223372036854775807");
    assert_eq!(Object::Int(0).to_string(), "0");
    assert_eq!(Object::Int(-10).to_string(), "-10");
}

#[test]
fn scope_binds_and_rebinds() {
    let mut s = Scope::new();
    assert!(s.parent.is_none());
    assert!(s.get("a".to_string()).is_none());
    s.set("a".to_string(), Object::Int(1));
    s.set("b".to_string(), Object::Int(2));
    s.set("a".to_string(), Object::Int(3));
    assert_eq!(s.get("a".to_string()).unwrap().to_string(), "3");
    assert_eq!(s.get("b".to_string()).unwrap().to_string(), "2");
    let child = Scope::new_enclosed_environment(4);
    assert_eq!(child.parent, Some(4));
    assert!(child.get("a".to_string()).is_none());
}

#[test]
fn lexer_edges() {
    assert_eq!(tokens(""), vec![Token::Eof]);
    assert_eq!(tokens(" \t\r\n"), vec![Token::Eof]);
    assert_eq!(
        tokens("a_b Ab1"),
        vec![
            Token::Ident("a_b".into()),
            Token::Ident("Ab".into()),
            Token::Int(1),
            Token::Eof
        ]
    );
    assert_eq!(
        tokens("12ab"),
        vec![Token::Int(12), Token::Ident("ab".into()), Token::Eof]
    );
    assert_eq!(
        tokens("= == ! != === !=="),
        vec![
            Token::Assign,
            Token::Eq,
            Token::Bang,
            Token::NotEq,
            Token::Eq,
            Token::Assign,
            Token::NotEq,
            Token::Assign,
            Token::Eof
        ]
    );
    assert_eq!(tokens("@"), vec![Token::Illegal, Token::Eof]);
    assert_eq!(tokens("\u{a0}1"), vec![Token::Illegal, Token::Int(1), Token::Eof]);
    assert_eq!(
        tokens("9223372036854775807"),
        vec![Token::Int(i64::MAX), Token::Eof]
    );
    assert_eq!(tokens("9223372036854775808"), vec![Token::Illegal, Token::Eof]);
    assert_eq!(
        tokens("99999999999999999999999999 1"),
        vec![Token::Illegal, Token::Int(1), Token::Eof]
    );
    assert_eq!(tokens("007"), vec![Token::Int(7), Token::Eof]);
    assert_eq!(tokens(r#""""#), vec![Token::String("".into()), Token::Eof]);
    assert_eq!(tokens(r#""abc"#), vec![Token::Illegal, Token::Eof]);
    assert_eq!(
        tokens(r#""a\"b""#),
        vec![
            Token::String("a\\".into()),
            Token::Ident("b".into()),
            Token::Illegal,
            Token::Eof
        ]
    );
    assert_eq!(
        tokens("let fn true false if else return lets"),
        vec![
            Token::Let,
            Token::Function,
            Token::True,
            Token::False,
            Token::If,
            Token::Else,
            Token::Return,
            Token::Ident("lets".into()),
            Token::Eof
        ]
    );
}

#[test]
fn eof_repeats_at_the_end() {
    let mut l = Lexer::new("a");
    assert_eq!(l.next_token(), Token::Ident("a".into()));
    for _ in 0..5 {
        assert_eq!(l.next_token(), Token::Eof);
    }
    assert_eq!(l.read_char(), '\0');
    assert_eq!(l.cur, '\0');
    assert_eq!(l.peek, '\0');
}

#[test]
fn read_char_moves_the_window() {
    let mut l = Lexer::new("xyz");
    assert_eq!((l.cur, l.peek), ('x', 'y'));
    assert_eq!(l.read_char(), 'x');
    assert_eq!((l.cur, l.peek), ('y', 'z'));
    assert_eq!(l.read_char(), 'y');
    assert_eq!((l.cur, l.peek), ('z', '\0'));
    assert_eq!(l.read_char(), 'z');
    assert_eq!((l.cur, l.peek), ('\0', '\0'));
}

#[test]
fn token_names_and_precedence() {
    assert_eq!(Token::String("x".into()).name(), "STRING");
    assert_eq!(Token::Ident("x".into()).name(), "Ident");
    assert_eq!(Token::Int(3).name(), "Int");
    assert_eq!(Token::LBracket.name(), "LBracket");
    assert_eq!(Token::Int(-3).to_string(), "-3");
    assert_eq!(Token::Eq.cur_precedence(), Precedence::Equals);
    assert_eq!(Token::Lt.cur_precedence(), Precedence::LessGreater);
    assert_eq!(Token::Minus.cur_precedence(), Precedence::Sum);
    assert_eq!(Token::Slash.cur_precedence(), Precedence::Product);
    assert_eq!(Token::LParen.cur_precedence(), Precedence::Call);
    assert_eq!(Token::LBracket.cur_precedence(), Precedence::Index);
    assert_eq!(Token::Bang.cur_precedence(), Precedence::Lowest);
    assert!(Precedence::Lowest < Precedence::Equals);
    assert!(Precedence::Prefix < Precedence::Call);
    assert!(Precedence::Sum.binds_looser_than(&Precedence::Product));
    assert!(!Precedence::Sum.binds_looser_than(&Precedence::Sum));
    assert_eq!(Precedence::Index.rank(), 7);
    assert_eq!(look_up_ident("fn"), Some(Token::Function));
    assert_eq!(look_up_ident("fun"), None);
}

#[test]
fn parse_errors() {
    let message = |src: &str| parse(src).unwrap_err().to_string();
    assert_eq!(
        message("let x 5"),
        "unexpected token error: expected =, but got 5"
    );
    assert_eq!(
        message("let 5 = 5"),
        "unexpected token error: expected Ident, but got 5"
    );
    assert_eq!(
        message("(1 + 2"),
        "unexpected token error: expected ), but got Eof"
    );
    assert_eq!(
        message("if x { 1 }"),
        "unexpected token error: expected (, but got x"
    );
    assert_eq!(
        message("fn x"),
        "unexpected token error: expected (, but got x"
    );
    assert_eq!(
        message("fn(1) {}"),
        "unexpected token error: expected Ident, but got 1"
    );
    assert_eq!(
        message("fn(a b) {}"),
        "unexpected token error: expected ), but got b"
    );
    assert_eq!(
        message("f(1 2)"),
        "unexpected token error: expected ), but got 2"
    );
    assert_eq!(
        message("[1 2]"),
        "unexpected token error: expected ], but got 1"
    );
    assert_eq!(
        message("a[1 2"),
        "unexpected token error: expected ], but got 1"
    );
    assert_eq!(
        message(r#"{"a" 1}"#),
        "unexpected token error: expected :, but got a"
    );
    assert_eq!(
        message(r#"{"a": 1 "b": 2}"#),
        "unexpected token error: expected ,, but got 1"
    );
    assert_eq!(message(")"), "custom error: failed to parse expression");
    assert_eq!(message("1 + "), "custom error: failed to parse expression");
    assert_eq!(message("let x = \"abc"), "custom error: failed to parse expression");
    assert!(matches!(
        parse("let x 5").unwrap_err(),
        RMonkeyError::UnexpectedToken {
            expected: Token::Assign,
            got: Token::Int(5)
        }
    ));
    assert_eq!(
        RMonkeyError::InvalidPrefix { got: Token::RParen }.to_string(),
        "invalid prefix: ) is invalid for prefix"
    );
}

#[test]
fn parser_stops_at_the_first_error() {
    let mut p = Parser::new(Lexer::new("1; let; 2"));
    assert!(p.parse_program().is_err());
}

#[test]
fn semicolons_are_optional() {
    let program = parse("let a = 1 let b = 2; a b").unwrap();
    assert_eq!(program.stmts.len(), 4);
}

#[test]
fn block_ends_at_end_of_input() {
    let program = parse("if (a) { b").unwrap();
    assert_eq!(program.stmts[0].to_string(), "if(a){b}");
}

#[test]
fn trailing_comma_in_hash_literal() {
    let program = parse(r#"{"a": 1,}"#).unwrap();
    assert_eq!(program.stmts[0].to_string(), r#"{"a": 1}"#);
}

#[test]
fn call_and_index_bind_tightest() {
    let text = |src: &str| parse(src).unwrap().stmts[0].to_string();
    assert_eq!(text("-f(x)"), "(-f(x))");
    assert_eq!(text("!a[0]"), "(!(a[0]))");
    assert_eq!(text("a + b[0](1) * c"), "(a + ((b[0])(1) * c))");
    assert_eq!(text("1 - 2 - 3"), "((1 - 2) - 3)");
    assert_eq!(text("1 == 2 != 3"), "((1 == 2) != 3)");
    assert_eq!(text("a < b + c"), "(a < (b + c))");
}

#[test]
fn syntax_tree_by_hand() {
    let program = Program::new(vec![
        Stmt::LetStmt {
            name: Expr::Ident("a".into()),
            value: Expr::InfixExpr {
                left: Box::new(Expr::IntLiteral(6)),
                right: Box::new(Expr::IntLiteral(7)),
                op: Infix::Asterisk,
            },
        },
        Stmt::ExprStmt(Expr::PrefixExpr {
            op: Prefix::Minus,
            right: Box::new(Expr::Ident("a".into())),
        }),
    ]);
    assert_eq!(program.stmts[0].to_string(), "let a = (6 * 7)");
    assert_eq!(program.stmts[0].clone().to_string(), "let a = (6 * 7)");
    let mut e = Evaluator::new();
    assert_eq!(e.eval(program).unwrap().to_string(), "-42");
}

#[test]
fn operators_as_text() {
    assert_eq!(Infix::NotEq.to_string(), "!=");
    assert_eq!(Infix::Slash.as_str(), "/");
    assert_eq!(Prefix::Bang.to_string(), "!");
}

#[test]
fn endless_recursion_ends_in_an_error() {
    assert_eq!(run("let f = fn(){ f() }; f();"), "call depth exceeded");
    assert_eq!(
        run("let f = fn(n){ if (n == 0) { 0 } else { 1 + f(n - 1) } }; f(1000);"),
        "call depth exceeded"
    );
    assert_eq!(
        run("let f = fn(n){ if (n == 0) { 0 } else { 1 + f(n - 1) } }; f(199);"),
        "199"
    );
}

#[test]
fn numerals_lex_back_to_their_numbers() {
    for v in [0i64, 7, 10, 99, 100, 1234567890, i64::MAX] {
        let text = Token::Int(v).to_string();
        assert_eq!(tokens(&text), vec![Token::Int(v), Token::Eof]);
    }
}

#[test]
fn tighter_operator_takes_the_operand() {
    let text = |src: &str| parse(src).unwrap().stmts[0].to_string();
    assert_eq!(text("a + b * c"), "(a + (b * c))");
    assert_eq!(text("a * b + c"), "((a * b) + c)");
    assert_eq!(text("a - b - c"), "((a - b) - c)");
    assert_eq!(text("a == b < c"), "(a == (b < c))");
    assert_eq!(text("a < b == c"), "((a < b) == c)");
    assert_eq!(text("a / b * c"), "((a / b) * c)");
}

#[test]
fn evaluate_from_text() {
    assert_eq!(evaluate("84 / 2").unwrap().to_string(), "42");
    assert_eq!(evaluate("0 / 7").unwrap().to_string(), "0");
    assert_eq!(
        evaluate("9223372036854775807 / 1").unwrap().to_string(),
        "9223372036854775807"
    );
    assert_eq!(
        evaluate("let x = ").unwrap_err().to_string(),
        "custom error: failed to parse expression"
    );
    assert_eq!(evaluate("1 / 0").unwrap_err().to_string(), "division by zero");
}

#[test]
fn closures_keep_their_own_arguments() {
    assert_eq!(
        run("let adder = fn(x) { fn(y) { x + y } }; let a = adder(2); let b = adder(30); a(1) + b(1)"),
        "34"
    );
    assert_eq!(
        run("let twice = fn(f) { fn(x) { f(f(x)) } }; twice(fn(x) { x * 3 })(7)"),
        "63"
    );
}

#[test]
fn larger_recursion() {
    assert_eq!(
        run("let fib = fn(n){ if (n < 2) { n } else { fib(n-1) + fib(n-2) } }; fib(18);"),
        "2584"
    );
}
