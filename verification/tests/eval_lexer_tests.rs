use kettu::eval_lexer::{tokenize_expression, EvalToken};

#[test]
fn tokenizes_operators_and_literals() {
    let tokens = tokenize_expression("(a + 12) >= 3.5 && !x != b").err();
    // `!` alone is not an operator.
    assert_eq!(tokens, Some("Unsupported token in expression: !".to_string()));

    let tokens = tokenize_expression("(count-1 + 12) >= 3.5 && y != b || z <= 2").unwrap();
    assert_eq!(
        tokens,
        vec![
            EvalToken::LParen,
            EvalToken::Ident("count-1".to_string()),
            EvalToken::Plus,
            EvalToken::Int(12),
            EvalToken::RParen,
            EvalToken::Ge,
            EvalToken::Float("3.5".to_string()),
            EvalToken::AndAnd,
            EvalToken::Ident("y".to_string()),
            EvalToken::NotEq,
            EvalToken::Ident("b".to_string()),
            EvalToken::OrOr,
            EvalToken::Ident("z".to_string()),
            EvalToken::Le,
            EvalToken::Int(2),
        ]
    );
}

#[test]
fn tokenizes_every_single_character_operator() {
    let tokens = tokenize_expression("a<b>c*d/e-f==g").unwrap();
    assert_eq!(
        tokens,
        vec![
            EvalToken::Ident("a".to_string()),
            EvalToken::Lt,
            EvalToken::Ident("b".to_string()),
            EvalToken::Gt,
            EvalToken::Ident("c".to_string()),
            EvalToken::Star,
            EvalToken::Ident("d".to_string()),
            EvalToken::Slash,
            EvalToken::Ident("e-f".to_string()),
            EvalToken::EqEq,
            EvalToken::Ident("g".to_string()),
        ]
    );
}

#[test]
fn keywords_become_booleans() {
    let tokens = tokenize_expression("true false trueish").unwrap();
    assert_eq!(
        tokens,
        vec![
            EvalToken::Bool(true),
            EvalToken::Bool(false),
            EvalToken::Ident("trueish".to_string()),
        ]
    );
}

#[test]
fn strings_keep_escaped_characters() {
    let tokens = tokenize_expression(r#""a\"b\\c" + "x""#).unwrap();
    assert_eq!(
        tokens,
        vec![
            EvalToken::String("a\"b\\c".to_string()),
            EvalToken::Plus,
            EvalToken::String("x".to_string()),
        ]
    );
}

#[test]
fn unterminated_string_reports_its_start() {
    assert_eq!(
        tokenize_expression("x + \"abc"),
        Err("Unterminated string starting at 5".to_string())
    );
}

#[test]
fn integer_overflow_is_reported() {
    assert_eq!(
        tokenize_expression("9223372036854775808"),
        Err("Invalid integer literal: 9223372036854775808".to_string())
    );
    assert_eq!(
        tokenize_expression("9223372036854775807"),
        Ok(vec![EvalToken::Int(i64::MAX)])
    );
}

#[test]
fn a_number_takes_one_decimal_point() {
    // The second point does not belong to the number, and cannot start a token.
    assert_eq!(
        tokenize_expression("1.2.3"),
        Err("Unsupported token in expression: .".to_string())
    );
    assert_eq!(
        tokenize_expression("1.2 7."),
        Ok(vec![EvalToken::Float("1.2".to_string()), EvalToken::Float("7.".to_string())])
    );
}

#[test]
fn empty_and_blank_input_give_no_tokens() {
    assert_eq!(tokenize_expression(""), Ok(vec![]));
    assert_eq!(tokenize_expression(" \t\n "), Ok(vec![]));
}

#[test]
fn lone_operators_are_unsupported() {
    assert_eq!(
        tokenize_expression("a = b"),
        Err("Unsupported token in expression: =".to_string())
    );
    assert_eq!(
        tokenize_expression("a & b"),
        Err("Unsupported token in expression: &".to_string())
    );
    assert_eq!(
        tokenize_expression("a | b"),
        Err("Unsupported token in expression: |".to_string())
    );
}

#[test]
fn rendered_numbers_lex_back() {
    for n in [0i64, 9, 10, 123456789, i64::MAX] {
        assert_eq!(tokenize_expression(&n.to_string()), Ok(vec![EvalToken::Int(n)]));
    }
}
