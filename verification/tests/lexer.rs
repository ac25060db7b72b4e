use rmonkey::lexer::Lexer;
use rmonkey::token::Token;

fn check_tokens(input: &str, tests: &[(Token, &str)]) {
    let mut l = Lexer::new(input);
    for (exp, exp_literal) in tests.iter() {
        let token = l.next_token();
        if token != *exp {
            panic!(
                "assertion failed at {} => left: {}, right: {}",
                l.cur,
                token.to_string(),
                exp.to_string()
            );
        }
        assert_eq!(token.to_string(), *exp_literal);
    }
}

#[test]
fn test_next_token() {
    let input = r#"=+(){},;"#;
    let tests = [
        (Token::Assign, "="),
        (Token::Plus, "+"),
        (Token::LParen, "("),
        (Token::RParen, ")"),
        (Token::LBrace, "{"),
        (Token::RBrace, "}"),
        (Token::Comma, ","),
        (Token::Semicolon, ";"),
        (Token::Eof, "Eof"),
    ];

    let mut l = Lexer::new(input);

    for (exp, exp_literal) in tests.iter() {
        let token = l.next_token();
        assert!(token.eq(exp));
        assert_eq!(token.to_string(), *exp_literal);
    }
}

#[test]
fn test_variable_binding() {
    let input = r#"
        let five = 5;
        let ten = 10;
        let add = fn(x, y){
            x + y
        };
        let result = add(five, ten);"#;
    let tests = [
        (Token::Let, "let"),
        (Token::Ident("five".to_string()), "five"),
        (Token::Assign, "="),
        (Token::Int(5), "5"),
        (Token::Semicolon, ";"),
        (Token::Let, "let"),
        (Token::Ident("ten".to_string()), "ten"),
        (Token::Assign, "="),
        (Token::Int(10), "10"),
        (Token::Semicolon, ";"),
        (Token::Let, "let"),
        (Token::Ident("add".to_string()), "add"),
        (Token::Assign, "="),
        (Token::Function, "fn"),
        (Token::LParen, "("),
        (Token::Ident("x".to_string()), "x"),
        (Token::Comma, ","),
        (Token::Ident("y".to_string()), "y"),
        (Token::RParen, ")"),
        (Token::LBrace, "{"),
        (Token::Ident("x".to_string()), "x"),
        (Token::Plus, "+"),
        (Token::Ident("y".to_string()), "y"),
        (Token::RBrace, "}"),
        (Token::Semicolon, ";"),
        (Token::Let, "let"),
        (Token::Ident("result".to_string()), "result"),
        (Token::Assign, "="),
        (Token::Ident("add".to_string()), "add"),
        (Token::LParen, "("),
        (Token::Ident("five".to_string()), "five"),
        (Token::Comma, ","),
        (Token::Ident("ten".to_string()), "ten"),
        (Token::RParen, ")"),
        (Token::Semicolon, ";"),
        (Token::Eof, "Eof"),
    ];
    check_tokens(input, &tests);
}

#[test]
fn test_op() {
    let input = r#"
!-/*5;
5 < 10 > 5;
        "#;

    let tests = [
        (Token::Bang, "!"),
        (Token::Minus, "-"),
        (Token::Slash, "/"),
        (Token::Asterisk, "*"),
        (Token::Int(5), "5"),
        (Token::Semicolon, ";"),
        (Token::Int(5), "5"),
        (Token::Lt, "<"),
        (Token::Int(10), "10"),
        (Token::Gt, ">"),
        (Token::Int(5), "5"),
    ];
    check_tokens(input, &tests);
}

#[test]
fn test_if_statement() {
    let input = r#"if(5 < 10){
            return true;
        } else {
            return false;
        }"#;

    let tests = [
        (Token::If, "if"),
        (Token::LParen, "("),
        (Token::Int(5), "5"),
        (Token::Lt, "<"),
        (Token::Int(10), "10"),
        (Token::RParen, ")"),
        (Token::LBrace, "{"),
        (Token::Return, "return"),
        (Token::True, "true"),
        (Token::Semicolon, ";"),
        (Token::RBrace, "}"),
        (Token::Else, "else"),
        (Token::LBrace, "{"),
        (Token::Return, "return"),
        (Token::False, "false"),
        (Token::Semicolon, ";"),
        (Token::RBrace, "}"),
        (Token::Eof, "Eof"),
    ];
    check_tokens(input, &tests);
}

#[test]
fn test_multiple() {
    let input = r#"
        10 == 10;
        10 != 9;
        "#;
    let tests = [
        (Token::Int(10), "10"),
        (Token::Eq, "=="),
        (Token::Int(10), "10"),
        (Token::Semicolon, ";"),
        (Token::Int(10), "10"),
        (Token::NotEq, "!="),
        (Token::Int(9), "9"),
        (Token::Semicolon, ";"),
        (Token::Eof, "Eof"),
    ];
    check_tokens(input, &tests);
}

#[test]
fn test_string() {
    let input = r#"
        "foobar"
        "foo bar"
        "#;
    let tests = [
        (Token::String("foobar".to_owned()), r#"foobar"#),
        (Token::String("foo bar".to_owned()), r#"foo bar"#),
        (Token::Eof, "Eof"),
    ];
    check_tokens(input, &tests);
}

#[test]
fn lexer_test_array_literal() {
    let input = r#"
        [1, 2];
        "#;
    let tests = [
        (Token::LBracket, "["),
        (Token::Int(1), "1"),
        (Token::Comma, ","),
        (Token::Int(2), "2"),
        (Token::RBracket, "]"),
        (Token::Semicolon, ";"),
        (Token::Eof, "Eof"),
    ];
    check_tokens(input, &tests);
}

#[test]
fn lib_test_hash_literal() {
    let input = r#"
        {"foo": "bar"}
        "#;
    let tests = [
        (Token::LBrace, "{"),
        (Token::String("foo".to_owned()), "foo"),
        (Token::Colon, ":"),
        (Token::String("bar".to_owned()), "bar"),
        (Token::RBrace, "}"),
        (Token::Eof, "Eof"),
    ];
    check_tokens(input, &tests);
}

#[test]
fn test_illegal_unclosed_quote() {
    let input = r#"let foo = ""#;
    let tests = [
        (Token::Let, "let"),
        (Token::Ident("foo".to_owned()), "foo"),
        (Token::Assign, "="),
        (Token::Illegal, "Illegal"),
    ];
    check_tokens(input, &tests);
}
