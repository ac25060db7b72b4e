use rmonkey::evaluator::Evaluator;
use rmonkey::lexer::Lexer;
use rmonkey::parser::Parser;

fn run(input: &str) -> String {
    let mut e = Evaluator::new();
    let l = Lexer::new(input);
    let mut p = Parser::new(l);
    let program = p.parse_program().unwrap();
    match e.eval(program) {
        Ok(r) => r.to_string(),
        Err(e) => e.to_string(),
    }
}

#[test]
fn test_prefix_expr() {
    let case = [
        ("!false", "true"),
        ("!5", "false"),
        ("!!true", "true"),
        ("!!false", "false"),
        ("!!5", "true"),
        ("!!-5", "true"),
        ("-5", "-5"),
        ("-10", "-10"),
    ];
    for (input, expected) in case.iter() {
        let mut e = Evaluator::new();
        let l = Lexer::new(input);
        let mut p = Parser::new(l);
        let program = p.parse_program().unwrap();
        let r = e.eval(program).unwrap();
        assert_eq!(r.to_string(), *expected);
    }
}

#[test]
fn test_integer_ope() {
    let case = [
        ("5", "5"),
        ("10", "10"),
        ("-5", "-5"),
        ("-10", "-10"),
        ("5 + 5 + 5 + 5 - 10", "10"),
        ("2 * 2 * 2 * 2 * 2", "32"),
        ("-50 + 100 - 50", "0"),
        ("5 * 2 + 10", "20"),
        ("5 + 2 * 10", "25"),
        ("50 / 2 * 2 + 10", "60"),
        ("2 * (5 + 10)", "30"),
        ("3 * 3 * 3 + 10", "37"),
        ("3 * (3 * 3) + 10", "37"),
        ("(5 + 10 * 2 + 15 / 3) * 2 + -10", "50"),
    ];

    for (input, expected) in case.iter() {
        let mut e = Evaluator::new();
        let l = Lexer::new(input);
        let mut p = Parser::new(l);
        let program = p.parse_program().unwrap();
        let r = e.eval(program).unwrap();
        assert_eq!(r.to_string(), *expected)
    }
}

#[test]
fn test_boolean_expr() {
    let case = [
        ("1 < 2", "true"),
        ("1 > 2", "false"),
        ("1 < 1", "false"),
        ("1 > 1", "false"),
        ("1 == 1", "true"),
        ("1 != 1", "false"),
        ("1 == 2", "false"),
        ("1 != 2", "true"),
        ("true == true", "true"),
        ("false == false", "true"),
        ("(1 < 2) == true", "true"),
        ("(1 < 2) == false", "false"),
        ("(1 > 2) == true", "false"),
        ("(1 > 2) == false", "true"),
    ];

    for (input, expected) in case {
        let mut e = Evaluator::new();
        let l = Lexer::new(input);
        let mut p = Parser::new(l);
        let program = p.parse_program().unwrap();
        let r = e.eval(program).unwrap();
        assert_eq!(r.to_string(), expected)
    }
}

#[test]
fn test_if_else_expr() {
    let case = [
        ("if(true){10}", "10"),
        ("if (false) { 10 }", "null"),
        ("if (5 * 5 + 10 > 34) { 99 } else { 100 }", "99"),
        ("if ((1000 / 2) + 250 * 2 == 1000) { 9999 }", "9999"),
    ];
    for (input, expected) in case.iter() {
        let mut e = Evaluator::new();
        let l = Lexer::new(input);
        let mut p = Parser::new(l);
        let program = p.parse_program().unwrap();
        let r = e.eval(program).unwrap();
        assert_eq!(r.to_string(), *expected)
    }
}

#[test]
fn test_return_stmt() {
    let case = [
        ("return 10", "10"),
        ("return 2 * 5", "10"),
        (
            "if (10 > 1) {
                    if (10 > 1) { return 10; }
                    return 1;
                }",
            "10",
        ),
    ];
    for (input, expected) in case.iter() {
        let mut e = Evaluator::new();
        let l = Lexer::new(input);
        let mut p = Parser::new(l);
        let program = p.parse_program().unwrap();
        let r = e.eval(program).unwrap();
        assert_eq!(r.to_string(), *expected)
    }
}

#[test]
fn test_let_statement() {
    let case = [
        ("let a = 5; a;", "5"),
        ("let a = 5 * 5; a;", "25"),
        ("let a = 5; let b = a; b;", "5"),
        ("let a = 5; let b = a; let c = a + b + 5; c;", "15"),
        (r#"let hello = "world"; hello"#, "\"world\""),
    ];
    for (input, expected) in case.iter() {
        let mut e = Evaluator::new();
        let l = Lexer::new(input);
        let mut p = Parser::new(l);
        let program = p.parse_program().unwrap();
        let r = e.eval(program).unwrap();
        assert_eq!(r.to_string(), *expected)
    }
}

#[test]
fn lib_test_function_literal() {
    let case = [
        ("let identity = fn(x){ x; }; identity(5);", "5"),
        ("let identity = fn(x){ return x; }; identity(5);", "5"),
        ("let double = fn(x) { x * 2; }; double(5);", "10"),
        ("let add = fn(x, y){ x + y;}; add(5, 5);", "10"),
        ("let add = fn(x, y){ x + y;}; add(5 + 5, add(5, 5));", "20"),
        (
            "let newAdder = fn(x) { fn(y) { x + y } };let addTwo = newAdder(2);addTwo(3);",
            "5",
        ),
    ];
    for (input, expected) in case.iter() {
        let mut e = Evaluator::new();
        let l = Lexer::new(input);
        let mut p = Parser::new(l);
        let program = p.parse_program().unwrap();
        let r = e.eval(program).unwrap();
        assert_eq!(r.to_string(), *expected)
    }
}

#[test]
fn test_builtin_string_len() {
    let case = [
        (r#"len("")"#, "0"),
        (r#"len("four")"#, "4"),
        (r#"len("hello world")"#, "11"),
        (
            r#"len(1)"#,
            "custom error: arg to `len` not supported, got INTEGER",
        ),
        (
            r#"len("one", "two")"#,
            "custom error: wrong number of args. got=2, want=1",
        ),
    ];
    for (input, expected) in case.iter() {
        let mut e = Evaluator::new();
        let l = Lexer::new(input);
        let mut p = Parser::new(l);
        let program = p.parse_program().unwrap();
        match e.eval(program) {
            Ok(r) => assert_eq!(r.to_string(), *expected),
            Err(e) => assert_eq!(e.to_string(), *expected),
        }
    }
}

#[test]
fn lib_test_array_literal() {
    let case = [(r#"[1, 2 * 2, 3 + 3]"#, "[1, 4, 6]")];
    for (input, expected) in case.iter() {
        let mut e = Evaluator::new();
        let l = Lexer::new(input);
        let mut p = Parser::new(l);
        let program = p.parse_program().unwrap();
        match e.eval(program) {
            Ok(r) => assert_eq!(r.to_string(), *expected),
            Err(e) => assert_eq!(e.to_string(), *expected),
        }
    }
}

#[test]
fn test_index_literal() {
    let case = [
        (r#"[1, 2, 3][0]"#, "1"),
        (r#"[1, 2, 3][1]"#, "2"),
        (r#"[1, 2, 3][2]"#, "3"),
        ("let myArray = [1, 2, 3]; myArray[2];", "3"),
        ("[1, 2, 3][3]", "null"),
    ];
    for (input, expected) in case.iter() {
        let mut e = Evaluator::new();
        let l = Lexer::new(input);
        let mut p = Parser::new(l);
        let program = p.parse_program().unwrap();
        match e.eval(program) {
            Ok(r) => assert_eq!(r.to_string(), *expected),
            Err(e) => assert_eq!(e.to_string(), *expected),
        }
    }
}

#[test]
fn test_buitin() {
    let case = [
        (r#"len([1, 2, 3])"#, "3"),
        (r#"first([1, 2, 3])"#, "1"),
        (r#"last([1, 2, 3])"#, "3"),
        (r#"rest([1, 2, 3])"#, "[2, 3]"),
        (r#"push([1, 2, 3], 4)"#, "[1, 2, 3, 4]"),
        (
            r#"let map = fn(arr, f) {let iter = fn(arr, accumulated) {if (len(arr) == 0) { accumulated} else {iter(rest(arr), push(accumulated, f(first(arr)))); }};iter(arr, []); }; let a = [1, 2, 3, 4]; let double = fn(x) { x * 2 };  map(a, double); "#,
            "[2, 4, 6, 8]",
        ),
        (
            r#"let reduce = fn(arr, initial, f) { let iter = fn(arr, result) {if (len(arr) == 0) { result} else {iter(rest(arr), f(result, first(arr))); }};iter(arr, initial); };let sum = fn(arr) {reduce(arr, 0, fn(initial, el) { initial + el });}; sum([1, 2, 3, 4, 5]);"#,
            "15",
        ),
    ];
    for (input, expected) in case.iter() {
        let mut e = Evaluator::new();
        let l = Lexer::new(input);
        let mut p = Parser::new(l);
        let program = p.parse_program().unwrap();
        match e.eval(program) {
            Ok(r) => assert_eq!(r.to_string(), *expected),
            Err(e) => assert_eq!(e.to_string(), *expected),
        }
    }
}

#[test]
fn test_hash_string() {
    let case = [(r#"{"one": 10 - 9, "two": 5}"#, r#"{"one": 1, "two": 5}"#)];
    for (input, expected) in case.iter() {
        let mut e = Evaluator::new();
        let l = Lexer::new(input);
        let mut p = Parser::new(l);
        let program = p.parse_program().unwrap();
        match e.eval(program) {
            Ok(r) => assert_eq!(r.to_string(), *expected),
            Err(e) => assert_eq!(e.to_string(), *expected),
        }
    }
}

#[test]
fn test_hash_index_access() {
    let case = [
        (r#"let bob = {"one": 10 - 9, "two": 5}; bob["one"];"#, "1"),
        (r#"{"foo": 5}["foo"]"#, "5"),
        (r#"{"foo": 5}["bar"]"#, "null"),
        (r#"{}["bar"]"#, "null"),
    ];
    for (input, expected) in case.iter() {
        let mut e = Evaluator::new();
        let l = Lexer::new(input);
        let mut p = Parser::new(l);
        let program = p.parse_program().unwrap();
        match e.eval(program) {
            Ok(r) => assert_eq!(r.to_string(), *expected),
            Err(e) => assert_eq!(e.to_string(), *expected),
        }
    }
}

#[test]
fn recursive_fibonacci() {
    assert_eq!(
        run("let fib = fn(n){ if (n < 2) { n } else { fib(n-1) + fib(n-2) } }; fib(10);"),
        "55"
    );
}
