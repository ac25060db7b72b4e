use rmonkey::lexer::Lexer;
use rmonkey::parser::Parser;

fn check_statements(input: &str, expected: &[&str]) {
    let l = Lexer::new(input);
    let mut p = Parser::new(l);
    let program = p.parse_program().unwrap();
    assert_eq!(program.stmts.len(), expected.len());
    for (i, p) in program.stmts.iter().enumerate() {
        assert_eq!(p.to_string(), expected[i]);
    }
}

#[test]
fn test_literal_expressions() {
    let input = r#"
        true;
        false;
        "#;

    let l = Lexer::new(input);
    let mut p = Parser::new(l);
    let program = p.parse_program().unwrap();

    assert_eq!(program.stmts.len(), 2);
}

#[test]
fn lib_test_return_stmt() {
    let input = r#"
        return 5;
        return 10;
        return 993322;
        "#;

    let l = Lexer::new(input);
    let mut p = Parser::new(l);
    let program = p.parse_program().unwrap();

    assert_eq!(program.stmts.len(), 3);
}

#[test]
fn test_string_literal() {
    let input = r#"
        let foo = "foo";
        let hello = "hello world";
        "#;
    let expected = vec![r#"let foo = "foo""#, r#"let hello = "hello world""#];
    check_statements(input, &expected);
}

#[test]
fn test_infix_expression() {
    let input = "5 + 5;
        5 - 5;
        5 * 5;
        5 / 5;
        5 + 5 * 5;
        5 * 5 - 5 * 5 + 1;
        -a * b;
        !-a;
        a + b * c + d / e - f;
        5 > 4 == 3 < 4;
        5 < 4 != 3 > 4;
        3 + 4 * 5 == 3 * 1 + 4 * 5;
        ";
    let expected = vec![
        "(5 + 5)",
        "(5 - 5)",
        "(5 * 5)",
        "(5 / 5)",
        "(5 + (5 * 5))",
        "(((5 * 5) - (5 * 5)) + 1)",
        "((-a) * b)",
        "(!(-a))",
        "(((a + (b * c)) + (d / e)) - f)",
        "((5 > 4) == (3 < 4))",
        "((5 < 4) != (3 > 4))",
        "((3 + (4 * 5)) == ((3 * 1) + (4 * 5)))",
    ];
    check_statements(input, &expected);
}

#[test]
fn test_if_expression() {
    let input = r#"if(x < y){x};
        if(a<b){a}else{b};"#;
    let expected = vec!["if((x < y)){x}", "if((a < b)){a}else{b}"];
    check_statements(input, &expected);
}

#[test]
fn test_function_literal() {
    let input = r#"
        fn(x){x + 1};
        fn(x,y){x+y};
        fn(){1+1};
        fn() { return foobar + barfoo }
        fn() { return fn(x, y) { return x > y; }; }
        let myFunction = fn(x, y) { return x + y; }
        "#;
    let expected = vec![
        "fn(x){(x + 1)}",
        "fn(x, y){(x + y)}",
        "fn(){(1 + 1)}",
        "fn(){return (foobar + barfoo)}",
        "fn(){return fn(x, y){return (x > y)}}",
        "let myFunction = fn(x, y){return (x + y)}",
    ];
    check_statements(input, &expected);
}

#[test]
fn test_call_expr() {
    let input = r#"add(1, 2 * 3, 4 + 5);
        a + add(b * c) + d;
        add(a, b, 1, 2 * 3, 4 + 5, add(6, 7 * 8));
        add(a + b + c * d / f + g);
        "#;
    let expected = vec![
        "add(1, (2 * 3), (4 + 5))",
        "((a + add((b * c))) + d)",
        "add(a, b, 1, (2 * 3), (4 + 5), add(6, (7 * 8)))",
        "add((((a + b) + ((c * d) / f)) + g))",
    ];
    check_statements(input, &expected);
}

#[test]
fn test_array_literal() {
    let input = r#"
        [1, 2 * 2, 3 + 3]
        myArray[1 + 1]
        a * [1, 2, 3, 4][b * c] * d
        add(a * b[2], b[1], 2 * [1, 2][1])
        "#;
    let expected = vec![
        "[1, (2 * 2), (3 + 3)]",
        "(myArray[(1 + 1)])",
        "((a * ([1, 2, 3, 4][(b * c)])) * d)",
        "add((a * (b[2])), (b[1]), (2 * ([1, 2][1])))",
    ];
    check_statements(input, &expected);
}

#[test]
fn test_hash_literal() {
    let input = r#"
        {"one": 1, "two": 2, "three": 3}
        {}
        {"one": 0 + 1, "two": 10 - 8, "three": 15 / 5}
        "#;
    let expected = vec![
        r#"{"one": 1, "two": 2, "three": 3}"#,
        "{}",
        r#"{"one": (0 + 1), "two": (10 - 8), "three": (15 / 5)}"#,
    ];
    check_statements(input, &expected);
}
