use kettu::docs::{
    build_link_map, extract_filename, grouped, load_docs, parse_meta, parse_page, rewrite_links,
    select_topic, strip_frontmatter, DocPage, TopicSelection,
};
use kettu::name_map::NameMap;

fn page(section: &str, order: u32, title: &str, filename: &str) -> DocPage {
    DocPage {
        section: section.to_string(),
        order,
        title: title.to_string(),
        content: String::new(),
        filename: filename.to_string(),
    }
}

fn key(s: &str) -> Vec<char> {
    s.chars().collect()
}

#[test]
fn parse_meta_reads_quoted_and_bare_values() {
    assert_eq!(parse_meta("// title: \"Packages & Interfaces\"", "title"), Some("Packages & Interfaces".to_string()));
    assert_eq!(parse_meta("  // order: 3 ", "order"), Some("3".to_string()));
    assert_eq!(parse_meta("// order: 3", "title"), None);
    assert_eq!(parse_meta("section::: \"\"x\"\"", "section"), Some("x".to_string()));
}

#[test]
fn strip_frontmatter_drops_the_header() {
    assert_eq!(strip_frontmatter("---\n// a: 1\n---\n\nbody\n"), "body\n");
    assert_eq!(strip_frontmatter("no header"), "no header");
    // An unterminated header leaves the source as it is.
    assert_eq!(strip_frontmatter("---\n// a: 1\n"), "---\n// a: 1\n");
    // Nothing after the closing marker: the body is empty.
    assert_eq!(strip_frontmatter("---\nx\n---"), "");
    assert_eq!(strip_frontmatter("---\n// title: x\n---"), "");
    assert_eq!(strip_frontmatter("---\n// title: x\n---\n\n"), "");
}

#[test]
fn extract_filename_prefers_the_file_hint() {
    assert_eq!(extract_filename("\n// file: simd\n", "SIMD Ops"), "simd");
    assert_eq!(extract_filename("\n// title: x\n", "Packages & Interfaces!"), "packages---interfaces");
}

#[test]
fn parse_page_reads_frontmatter() {
    let src = "---\n// section: \"Language Topics\"\n// order: 2\n// title: \"Types\"\n---\n# Types\n";
    let p = parse_page(src).unwrap();
    assert_eq!(p.section, "Language Topics");
    assert_eq!(p.order, 2);
    assert_eq!(p.title, "Types");
    assert_eq!(p.content, "# Types\n");
    assert_eq!(p.filename, "types");
}

#[test]
fn parse_page_rejects_incomplete_or_index_pages() {
    assert!(parse_page("# no frontmatter").is_none());
    assert!(parse_page("---\n// section: s\n// title: t\n---\nx").is_none());
    assert!(parse_page("---\n// section: s\n// order: x\n// title: t\n---\nx").is_none());
    assert!(parse_page("---\n// section: s\n// order: 1\n// title: t\n// index: true\n---\nx").is_none());
}

#[test]
fn load_docs_sorts_by_section_rank_then_order() {
    let a = "---\n// section: \"Advanced Topics\"\n// order: 1\n// title: \"A\"\n---\na";
    let b = "---\n// section: \"Language Topics\"\n// order: 2\n// title: \"B\"\n---\nb";
    let c = "---\n// section: \"Other\"\n// order: 0\n// title: \"C\"\n---\nc";
    let d = "---\n// section: \"Language Topics\"\n// order: 1\n// title: \"D\"\n---\nd";
    let pages = load_docs(&[a, "junk", b, c, d]);
    let titles: Vec<&str> = pages.iter().map(|p| p.title.as_str()).collect();
    assert_eq!(titles, vec!["D", "B", "A", "C"]);
}

#[test]
fn grouped_keeps_runs_of_sections() {
    let pages = vec![page("L", 1, "a", "a"), page("L", 2, "b", "b"), page("A", 1, "c", "c"), page("L", 3, "d", "d")];
    let groups = grouped(&pages);
    let shape: Vec<(&str, usize)> = groups.iter().map(|(s, ps)| (*s, ps.len())).collect();
    assert_eq!(shape, vec![("L", 2), ("A", 1), ("L", 1)]);
}

#[test]
fn link_map_numbers_sections_and_topics() {
    let pages = vec![page("L", 1, "a", "types"), page("L", 2, "b", "funcs"), page("A", 1, "c", "simd")];
    let m = build_link_map(&pages);
    assert_eq!(m.get(&key("types")), Some(&"1.1".to_string()));
    assert_eq!(m.get(&key("funcs")), Some(&"1.2".to_string()));
    assert_eq!(m.get(&key("simd")), Some(&"2.1".to_string()));
    assert_eq!(m.get(&key("none")), None);
}

#[test]
fn rewrite_links_points_local_links_at_topics() {
    let mut m = NameMap::new();
    m.insert("simd".to_string(), "2.1".to_string());
    assert_eq!(
        rewrite_links("See [SIMD](../simd.md) and [x](y.md#z).", &m),
        "See SIMD (\u{2192} kettu docs 2.1) and [x](y.md#z)."
    );
    assert_eq!(
        rewrite_links("[SIMD](simd.md#lanes) [w](http://e.com) [open", &m),
        "SIMD (\u{2192} kettu docs 2.1) [w](http://e.com) [open"
    );
    assert_eq!(rewrite_links("[a] (b.md)", &m), "[a] (b.md)");
}

#[test]
fn topic_selectors_are_resolved() {
    let counts = [2usize, 1];
    assert_eq!(select_topic("1", &counts), TopicSelection::Section { section: 1 });
    assert_eq!(select_topic("1.2", &counts), TopicSelection::Topic { section: 1, topic: 2 });
    assert_eq!(select_topic("+2.1", &counts), TopicSelection::Topic { section: 2, topic: 1 });
    assert_eq!(select_topic("3", &counts), TopicSelection::MissingSection { section: 3, sections: 2 });
    assert_eq!(select_topic("2.5", &counts), TopicSelection::MissingTopic { section: 2, topic: 5, topics: 1 });
    assert_eq!(select_topic("0", &counts), TopicSelection::InvalidNumber);
    assert_eq!(select_topic("x.1", &counts), TopicSelection::InvalidNumber);
    assert_eq!(select_topic("1.", &counts), TopicSelection::InvalidNumber);
    assert_eq!(select_topic("1.1.9", &counts), TopicSelection::Topic { section: 1, topic: 1 });
}

#[test]
fn slugs_lowercase_unicode_and_keep_letters() {
    assert_eq!(extract_filename("", "Über Maß"), "über-maß");
    assert_eq!(extract_filename("", "--A b--"), "a-b");
}

#[test]
fn rewriting_with_no_pages_keeps_the_text() {
    let empty = NameMap::new();
    for text in ["", "plain", "[a](b.md) [c] (d) [e](f", "x [y](z.md#w) ]["] {
        assert_eq!(rewrite_links(text, &empty), text);
    }
}

#[test]
fn rewriting_keeps_links_to_pages_not_in_the_table() {
    let mut m = NameMap::new();
    m.insert("simd".to_string(), "2.1".to_string());
    for text in ["See [T](../threads.md) and [x](y.md#z).", "[a](simd) [b](simd.txt)", "simd.md"] {
        assert_eq!(rewrite_links(text, &m), text);
    }
}
