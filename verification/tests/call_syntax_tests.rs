use kettu::call_syntax::{
    extract_call_arguments, extract_call_name, is_identifier, split_assignment,
    split_top_level_arguments,
};

#[test]
fn identifiers_start_with_a_letter_or_underscore() {
    assert!(is_identifier("add-x"));
    assert!(is_identifier("_tmp9"));
    assert!(!is_identifier(""));
    assert!(!is_identifier("9lives"));
    assert!(!is_identifier("-x"));
    assert!(!is_identifier("a b"));
}

#[test]
fn call_names_come_before_the_first_parenthesis() {
    assert_eq!(extract_call_name("let y = add-one(x)"), Some("add-one".to_string()));
    assert_eq!(extract_call_name("  f(g(1))"), Some("f".to_string()));
    assert_eq!(extract_call_name("(x)"), None);
    assert_eq!(extract_call_name("x + (y)"), None);
    assert_eq!(extract_call_name("no call"), None);
}

#[test]
fn assignments_split_at_the_first_equals() {
    assert_eq!(split_assignment("  a = b + 1 ;"), Some(("a", "b + 1")));
    assert_eq!(split_assignment("x == y"), Some(("x", "= y")));
    assert_eq!(split_assignment("a ="), None);
    assert_eq!(split_assignment("= 3"), None);
    assert_eq!(split_assignment("no assignment"), None);
}

#[test]
fn top_level_arguments_respect_nesting_and_strings() {
    assert_eq!(
        split_top_level_arguments(" a, f(b, c) ,[1,2], {x: 1, y: 2}, \"p, q\" ,, "),
        vec!["a", "f(b, c)", "[1,2]", "{x: 1, y: 2}", "\"p, q\""]
    );
    assert_eq!(split_top_level_arguments(""), Vec::<String>::new());
    assert_eq!(split_top_level_arguments(r#""a\"," , b"#), vec![r#""a\",""#, "b"]);
}

#[test]
fn call_arguments_are_read_up_to_the_matching_parenthesis() {
    assert_eq!(
        extract_call_arguments("let r = f(a, g(b, c), \")\") + 1"),
        Some(vec!["a".to_string(), "g(b, c)".to_string(), "\")\"".to_string()])
    );
    assert_eq!(extract_call_arguments("f(a, b"), None);
    assert_eq!(extract_call_arguments("no parens"), None);
    assert_eq!(extract_call_arguments("f()"), Some(vec![]));
}
