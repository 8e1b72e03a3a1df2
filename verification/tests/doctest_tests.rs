use kettu::doctest::{extract_blocks, indent, is_func_signature, parse_mode, wrap_snippet, Mode};

#[test]
fn modes_come_from_the_info_string() {
    assert_eq!(parse_mode("kettu"), Mode::Check);
    assert_eq!(parse_mode("kettu nocheck"), Mode::NoCheck);
    assert_eq!(parse_mode("kettu   parse extra"), Mode::Parse);
    assert_eq!(parse_mode("kettu standalone"), Mode::Check);
    assert_eq!(parse_mode("kettu whatever"), Mode::Check);
}

#[test]
fn blocks_are_extracted_with_lines_and_modes() {
    let md = "# T\n```kettu\nlet x = 1;\n```\ntext\n  ```kettu nocheck\npackage a:b;\ninterface i {}\n  ```\n````kettu\nno\n````\n";
    let blocks = extract_blocks(md);
    assert_eq!(blocks.len(), 2);
    assert_eq!(blocks[0].line, 2);
    assert_eq!(blocks[0].mode, Mode::Check);
    assert!(!blocks[0].standalone);
    assert_eq!(blocks[0].code, "let x = 1;");
    assert_eq!(blocks[1].line, 6);
    assert_eq!(blocks[1].mode, Mode::NoCheck);
    assert!(blocks[1].standalone);
    assert_eq!(blocks[1].code, "package a:b;\ninterface i {}");
}

#[test]
fn an_unclosed_block_runs_to_the_end() {
    let blocks = extract_blocks("```kettu parse\na\nb");
    assert_eq!(blocks.len(), 1);
    assert_eq!(blocks[0].mode, Mode::Parse);
    assert_eq!(blocks[0].code, "a\nb");
}

#[test]
fn indent_pads_non_blank_lines() {
    assert_eq!(indent("a\n  \nb", 2), "  a\n\n  b");
    assert_eq!(indent("", 4), "");
}

#[test]
fn func_signatures_are_recognised() {
    assert!(is_func_signature("f: func(a: u32) -> u32;\n// note\n\ng: async func();"));
    assert!(!is_func_signature("f: func();\nlet x = 1;"));
}

#[test]
fn snippets_are_wrapped_by_kind() {
    assert_eq!(
        wrap_snippet("record p { x: u32 }", None),
        "package local:doctest;\n\ninterface snippet {\n    record p { x: u32 }\n}\n"
    );
    assert_eq!(
        wrap_snippet("world w {}", None),
        "package local:doctest;\n\nworld w {}\n"
    );
    assert_eq!(
        wrap_snippet("constructor(x: u32);", None),
        "package local:doctest;\n\ninterface snippet {\n    resource r {\n        constructor(x: u32);\n    }\n}\n"
    );
    assert_eq!(
        wrap_snippet("  let y = x;  ", Some("let x = 1;")),
        "package local:doctest;\n\ninterface snippet {\n    run: func() {\n        let x = 1;\n        let y = x;\n    }\n}\n"
    );
    assert_eq!(
        wrap_snippet("let y = 2;", None),
        "package local:doctest;\n\ninterface snippet {\n    run: func() {\n        let y = 2;\n    }\n}\n"
    );
}

use kettu::doctest::{block_source, tally_page, CodeBlock};

fn block(mode: Mode, standalone: bool, code: &str) -> CodeBlock {
    CodeBlock { line: 1, mode, standalone, code: code.to_string() }
}

#[test]
fn blocks_are_tested_as_written_or_wrapped() {
    assert_eq!(block_source(&block(Mode::NoCheck, false, "x"), None), None);
    assert_eq!(
        block_source(&block(Mode::Parse, true, "package a:b;"), None),
        Some("package a:b;".to_string())
    );
    assert_eq!(
        block_source(&block(Mode::Check, false, "world w {}"), Some("let x = 1;")),
        Some("package local:doctest;\n\nworld w {}\n".to_string())
    );
}

#[test]
fn pages_are_tallied() {
    let blocks = vec![block(Mode::Check, false, ""), block(Mode::NoCheck, false, ""), block(Mode::Parse, false, "")];
    assert_eq!(tally_page(&blocks, &[true, false]), (1, 1, 1));
    assert_eq!(tally_page(&blocks, &[true, true]), (2, 0, 1));
    // A page without tested blocks counts for nothing, not even its skipped blocks.
    assert_eq!(tally_page(&[block(Mode::NoCheck, false, "")], &[]), (0, 0, 0));
    assert_eq!(tally_page(&[], &[]), (0, 0, 0));
}
