//! Button construction and the playground fence decisions.

use markdown_linkify::buttons::{
    choose_formatted, fence_has_token, fence_token_with_prefix, make_button,
    wants_playground_button, EmptyPlaygroundInserter, PlaygroundButtonInserter,
};
use markdown_linkify::event::Event;

use pulldown_cmark_to_cmark::cmark;

fn to_pulldown(events: Vec<Event>) -> Vec<pulldown_cmark::Event<'static>> {
    events
        .into_iter()
        .map(|e| match e {
            Event::Html(s) => pulldown_cmark::Event::Html(s.into()),
            Event::Text(s) => pulldown_cmark::Event::Text(s.into()),
            Event::Code(s) => pulldown_cmark::Event::Code(s.into()),
            other => panic!("unexpected event in a button: {other:?}"),
        })
        .collect()
}

#[test]
fn makes_button() {
    let mut output = String::new();
    let button = make_button(
        "'https://www.example.com'".to_string(),
        "Example.com!".to_string(),
    );
    let events = to_pulldown(button);
    let _state = cmark(&mut events.into_iter(), &mut output, pulldown_cmark::Options::empty()).unwrap();

    let expected = r#"<p style="position: absolute; right: 10px; top: 10px; padding: 0; margin: 0; line-height: 0">
<button
    onclick="window.open('https://www.example.com','_blank')"
    style="
    height: fit-content;
    margin: 0;
    font-weight: bold;"
>Example.com!
</button>
</p>
"#;
    assert_eq!(expected, output);
}

#[test]
fn playground_tag_detection() {
    assert!(wants_playground_button("rust tag:playground-button"));
    assert!(!wants_playground_button("rust tag:other"));
    assert!(!wants_playground_button("rust"));
    // The last tag: token decides.
    assert!(wants_playground_button("tag:other tag:playground-button"));
    assert!(!wants_playground_button("tag:playground-button tag:other"));
}

#[test]
fn fence_tokens_are_whitespace_separated() {
    assert!(fence_has_token("rust playground-wrap:main extra", "playground-wrap:main"));
    assert!(!fence_has_token("rust playground-wrap:maintenance", "playground-wrap:main"));
    let last = fence_token_with_prefix("rust marker:a marker:b", "marker:");
    assert_eq!(last, Some("marker:b".to_string()));
    assert_eq!(fence_token_with_prefix("rust", "marker:"), None);
}

#[test]
fn named_templates_wrap_main() {
    let inserter = PlaygroundButtonInserter;
    let t = inserter.template("rust tag:playground-button playground-wrap:main");
    assert_eq!(t.pre, "fn main() {".to_string());
    assert_eq!(t.post, "}".to_string());
    let code = inserter.wrapped_code(&t, "let x = 1;");
    assert_eq!(code, "fn main() {let x = 1;}".to_string());
}

#[test]
fn anyhow_template_unescapes_line_breaks() {
    let inserter = PlaygroundButtonInserter;
    let t = inserter.template("rust playground-wrap:main_anyhow");
    assert_eq!(t.pre, "fn main() -> anyhow::Result<()> {".to_string());
    assert_eq!(t.post, "Ok(())\n}".to_string());
    let code = inserter.wrapped_code(&t, "work()?;\\n");
    assert_eq!(code, "fn main() -> anyhow::Result<()> {work()?;\nOk(())\n}".to_string());
}

#[test]
fn custom_template_reads_quoted_fragments() {
    let inserter = PlaygroundButtonInserter;
    let t = inserter.template(
        "rust playground-before:$\"fn main() { let a = 1;\"$ playground-after:$\"}\"$",
    );
    assert_eq!(t.pre, "fn main() { let a = 1;".to_string());
    assert_eq!(t.post, "}".to_string());
}

#[test]
fn playground_url_percent_encodes_the_code() {
    let inserter = PlaygroundButtonInserter;
    let url = inserter.url("fn main() {}");
    assert_eq!(
        url,
        "'https://play.rust-lang.org/?version=stable&mode=debug&edition=2021&code=fn%20main%28%29%20%7B%7D'"
            .to_string()
    );
}

#[test]
fn formatter_fallbacks() {
    assert_eq!(choose_formatted("orig", None), "orig".to_string());
    assert_eq!(choose_formatted("orig", Some(String::new())), "orig".to_string());
    assert_eq!(
        choose_formatted("orig", Some("formatted".to_string())),
        "formatted".to_string()
    );
}

#[test]
fn empty_playground_inserter_emits_the_markup() {
    let inserter = EmptyPlaygroundInserter::new();
    assert_eq!(inserter.tag(), "empty_playground".to_string());
    let event = inserter.apply("<iframe></iframe>");
    assert_eq!(event, Event::Html("<iframe></iframe>".to_string()));
}
