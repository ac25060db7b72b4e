use rmonkey::fmt::Formatter;
use rmonkey::lexer::Lexer;
use rmonkey::parser::Parser;

fn formatter(input: &str) -> String {
    let mut formatter = Formatter::default();
    let l = Lexer::new(input);
    let mut p = Parser::new(l);
    let program = p.parse_program().unwrap();
    formatter.fmt(program)
}

#[test]
fn test_literals() {
    let input = [
        (r#"40"#, r#"40;"#),
        (r#"400000"#, r#"400000;"#),
        (r#"true"#, r#"true;"#),
        (r#"false"#, r#"false;"#),
        (r#""foo""#, r#""foo";"#),
        (r#""bar    ""#, r#""bar    ";"#),
        (r#"[1,2,3,4]"#, r#"[1, 2, 3, 4];"#),
        (r#"[1,2   ,3,    4]"#, r#"[1, 2, 3, 4];"#),
        (r#"arr[0 ]"#, r#"arr[0];"#),
        (r#"some_func(left,right)"#, r#"some_func(left, right);"#),
        (
            r#"some_func( 0, 1,    3,      5, 4  )"#,
            r#"some_func(0, 1, 3, 5, 4);"#,
        ),
    ];
    for (input, expected) in input.into_iter() {
        let input = formatter(input);
        assert_eq!(input, expected);
    }
}

#[test]
fn test_prefix() {
    let input = [
        ("! false ", "!false;"),
        ("!5 ", "!5;"),
        ("!! true", "!!true;"),
        (" ! ! false", "!!false;"),
        ("! !- 5", "!!-5;"),
        ("- 5", "-5;"),
        (" -   10", "-10;"),
    ];
    for (input, expected) in input.into_iter() {
        let input = formatter(input);
        assert_eq!(input, expected);
    }
}

#[test]
fn test_infix() {
    let input = [
        ("5+5+5+5-10", "5 + 5 + 5 + 5 - 10;"),
        ("2*2*2*2*2", "2 * 2 * 2 * 2 * 2;"),
        ("2*(5+10)", "2 * (5 + 10);"),
        ("(5+10*2+15/3)*2+-10", "(5 + 10 * 2 + 15 / 3) * 2 + -10;"),
    ];
    for (input, expected) in input.into_iter() {
        let input = formatter(input);
        assert_eq!(input, expected);
    }
}

#[test]
fn fmt_test_function_literal() {
    let input = [
        (
            "let identity=fn(x){x;}",
            "let identity = fn(x) {
x;
};",
        ),
        (
            "let double = fn(x){x*2;};",
            "let double = fn(x) {
x * 2;
};",
        ),
        (
            "let add = fn(   x,     y){x+y;};",
            "let add = fn(x, y) {
x + y;
};",
        ),
        (
            "let newAdder = fn(x){fn(y){x + y}};",
            "let newAdder = fn(x) {
fn(y) {
x + y;
};
};",
        ),
    ];
    for (input, expected) in input.into_iter() {
        let input = formatter(input);
        assert_eq!(input, expected);
    }
}

#[test]
fn test_if_expr() {
    let input = [
        (
            "if(true){10}",
            "if(true) {
10;
};",
        ),
        (
            "if (false) { 10 }",
            "if(false) {
10;
};",
        ),
        (
            "if (5 * 5 + 10 > 34) { 99 } else { 100 }",
            "if(5 * 5 + 10 > 34) {
99;
} else {
100;
};",
        ),
    ];
    for (input, expected) in input.into_iter() {
        let input = formatter(input);
        assert_eq!(input, expected);
    }
}

#[test]
fn let_stmt() {
    let input = [
        (r#"let foo=40"#, r#"let foo = 40;"#),
        (r#"let foo=400000"#, r#"let foo = 400000;"#),
        (r#"let foo=-40"#, r#"let foo = -40;"#),
        (r#"let foo=-   40"#, r#"let foo = -40;"#),
        (r#"let foo=true"#, r#"let foo = true;"#),
        (r#"let foo=false"#, r#"let foo = false;"#),
        (r#"let foo="foo""#, r#"let foo = "foo";"#),
        (r#"let foo="bar    ""#, r#"let foo = "bar    ";"#),
    ];

    for (input, expected) in input.into_iter() {
        let input = formatter(input);
        assert_eq!(input, expected);
    }
}

#[test]
fn nested_conditionals_in_a_function() {
    let source = "let fibonacci = fn(x) {if (x == 0) {0;} else {if (x == 1) {1;}else {fibonacci(x - 1) + fibonacci(x - 2);}}};";
    assert_eq!(
        formatter(source),
        "let fibonacci = fn(x) {\nif(x == 0) {\n0;\n} else {\nif(x == 1) {\n1;\n} else {\nfibonacci(x - 1) + fibonacci(x - 2);\n};\n};\n};"
    );
}

#[test]
fn return_and_hash_literal() {
    assert_eq!(formatter("return 1+2"), "return 1 + 2;");
    assert_eq!(formatter(r#"{"a":1,"b":2*3}"#), r#"{"a": 1, "b": 2 * 3};"#);
}
