//! The snippet collection.

use markdown_linkify::snippets::{Snippet, Snippets};

fn snippet(content: &str, file: &str, line: usize) -> Snippet {
    Snippet { content: content.to_string(), file: file.to_string(), line, col: 0 }
}

#[test]
fn snippets_for_id_collects_across_files_in_order() {
    let snippets = Snippets {
        snippets: vec![
            (
                "a.rs".to_string(),
                vec![
                    ("begin".to_string(), snippet("fn a() {}", "a.rs", 3)),
                    ("other".to_string(), snippet("fn o() {}", "a.rs", 9)),
                ],
            ),
            ("b.rs".to_string(), vec![("begin".to_string(), snippet("fn b() {}", "b.rs", 1))]),
        ],
    };
    let found = snippets.snippets_for_id("begin");
    assert_eq!(found.len(), 2);
    assert_eq!(found[0].content, "fn a() {}".to_string());
    assert_eq!(found[0].line, 3);
    assert_eq!(found[1].content, "fn b() {}".to_string());
    assert_eq!(found[1].file, "b.rs".to_string());
}

#[test]
fn snippets_for_id_misses_cleanly() {
    let snippets = Snippets::new();
    assert!(snippets.snippets_for_id("begin").is_empty());
}

fn get<'a>(
    entries: &'a [(String, markdown_linkify::snippets::Snippet)],
    id: &str,
) -> &'a markdown_linkify::snippets::Snippet {
    &entries.iter().find(|e| e.0 == id).expect("identifier must be present").1
}

#[test]
fn handles_nested_markers() {
    let input = "// marker-start begin\nline a\n// marker-start alsobegin\ninner\n// marker-end alsobegin\nline b\n// marker-end begin\n";
    let snippets = markdown_linkify::snippets::parse(input, "test.txt");
    assert!(get(&snippets, "begin").content.contains("// marker-start alsobegin"));
    assert!(get(&snippets, "begin").content.contains("// marker-end alsobegin"));
    assert!(!get(&snippets, "begin").content.contains("// marker-start begin"));
    assert_eq!(get(&snippets, "alsobegin").content, "inner".to_string());
}

#[test]
fn handles_overlapping_markers() {
    let input = "# marker-start begin\none\n# marker-start alsobegin\ntwo\n# marker-end begin\nthree\n# marker-end alsobegin\n";
    let snippets = markdown_linkify::snippets::parse(input, "test.txt");
    assert!(get(&snippets, "begin").content.contains("# marker-start alsobegin"));
    assert!(get(&snippets, "alsobegin").content.contains("# marker-end begin"));
}

#[test]
fn same_line_markers_are_ignored() {
    let input = "// marker-start begin // marker-end begin\nbody\n";
    let snippets = markdown_linkify::snippets::parse(input, "test.txt");
    assert!(snippets.iter().find(|e| e.0 == "begin").is_none());
}

#[test]
fn later_pair_overwrites_earlier() {
    let input = "// marker-start begin\nfirst\n// marker-end begin\n// marker-start begin\nsecond\n// marker-end begin\n";
    let snippets = markdown_linkify::snippets::parse(input, "test.txt");
    assert_eq!(snippets.len(), 1);
    assert_eq!(get(&snippets, "begin").content, "second".to_string());
    assert_eq!(get(&snippets, "begin").line, 3);
}

#[test]
fn snippet_button_points_into_the_last_snippet() {
    let inserter = markdown_linkify::buttons::SnippetButtonInserter::with_snippets(
        Snippets {
            snippets: vec![(
                "src/a.rs".to_string(),
                vec![("begin".to_string(), snippet("    let x = 1;", "src/a.rs", 4))],
            )],
        },
    );
    let handled = inserter.handle_codeblock("rust marker:begin", "");
    let (block, url, label) = handled.expect("the marker names a snippet");
    assert_eq!(block, "let x = 1;".to_string());
    assert_eq!(url, "'vscode://file/'.concat(make_path('src/a.rs:5:0'))".to_string());
    assert_eq!(label, "Open VSCode".to_string());
}

#[test]
fn snippet_button_hides_other_markers() {
    let content = "let a = 1;\n// marker-start other\nlet b = 2;\n// marker-end other\nlet c = 3;";
    let inserter = markdown_linkify::buttons::SnippetButtonInserter::with_snippets(
        Snippets {
            snippets: vec![(
                "src/a.rs".to_string(),
                vec![("begin".to_string(), snippet(content, "src/a.rs", 0))],
            )],
        },
    );
    let handled = inserter.handle_codeblock("rust marker:begin hide_other_markers", "");
    let (block, _url, _label) = handled.expect("the marker names a snippet");
    assert_eq!(block, "let a = 1;\nlet b = 2;\nlet c = 3;".to_string());
}
