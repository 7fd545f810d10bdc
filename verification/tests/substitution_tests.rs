//! The regex-substitution transformer on concrete links.

use markdown_linkify::event::{Event, LinkType};
use markdown_linkify::link::Link;
use markdown_linkify::substitution::{ConfigError, Substitution};

fn substitution(
    tag: &str,
    tail: &str,
    replacement: &str,
    limit: usize,
    code: bool,
    tail_only: bool,
    replace_text: bool,
) -> Substitution {
    Substitution::new(
        tag.to_string(),
        tail.to_string(),
        replacement.to_string(),
        limit,
        code,
        tail_only,
        replace_text,
    )
    .expect("pattern must compile")
}

#[test]
fn grtp_replacement() {
    let sub = substitution(
        "GTPR-",
        r"\d+",
        "http://www.grtp.de/issue/$text",
        0,
        true,
        false,
        false,
    );
    let link = &mut Link {
        link_type: LinkType::Reference,
        destination: "GTPR-12355".to_string(),
        title: String::new(),
        text: vec![],
        id: String::new(),
    };
    sub.apply(link);
    assert_eq!(link.destination, "http://www.grtp.de/issue/12355".to_string());
    assert_eq!(link.text, vec![Event::Code("GTPR-12355".to_string())]);
    assert_eq!(link.title, "http://www.grtp.de/issue/12355".to_string());
}

#[test]
fn struct_keyword_replacement() {
    let sub = substitution(
        "keyword:",
        r"(?<word>\w+)",
        "https://doc.rust-lang.org/std/keyword.$word.html",
        1,
        true,
        true,
        false,
    );
    let link = &mut Link {
        link_type: LinkType::Autolink,
        destination: "keyword:struct".to_string(),
        title: String::new(),
        text: vec![],
        id: String::new(),
    };
    sub.apply(link);
    assert_eq!(
        link.destination,
        "https://doc.rust-lang.org/std/keyword.struct.html".to_string()
    );
    assert_eq!(link.text, vec![Event::Code("struct".to_string())]);
}

#[test]
fn substitution_limit_caps_replacements() {
    let sub = substitution("GTPR-", r"\d+", "X", 1, false, false, false);
    let link = &mut Link {
        link_type: LinkType::Inline,
        destination: "GTPR-1 GTPR-2 GTPR-3".to_string(),
        title: "keep".to_string(),
        text: vec![Event::Text("label".to_string())],
        id: String::new(),
    };
    sub.apply(link);
    assert_eq!(link.destination, "X GTPR-2 GTPR-3".to_string());
}

#[test]
fn substitution_limit_zero_replaces_all() {
    let sub = substitution("GTPR-", r"\d+", "X", 0, false, false, false);
    let link = &mut Link {
        link_type: LinkType::Inline,
        destination: "GTPR-1 GTPR-2 GTPR-3".to_string(),
        title: "keep".to_string(),
        text: vec![Event::Text("label".to_string())],
        id: String::new(),
    };
    sub.apply(link);
    assert_eq!(link.destination, "X X X".to_string());
}

#[test]
fn explicit_title_is_never_overwritten() {
    let sub = substitution("GTPR-", r"\d+", "http://x/issue/$text", 1, false, false, false);
    let link = &mut Link {
        link_type: LinkType::Inline,
        destination: "GTPR-7".to_string(),
        title: "explicit title".to_string(),
        text: vec![],
        id: String::new(),
    };
    sub.apply(link);
    assert_eq!(link.destination, "http://x/issue/7".to_string());
    assert_eq!(link.title, "explicit title".to_string());
}

#[test]
fn existing_label_is_kept_without_replace_text() {
    let sub = substitution("GTPR-", r"\d+", "http://x/issue/$text", 1, false, false, false);
    let link = &mut Link {
        link_type: LinkType::Inline,
        destination: "GTPR-7".to_string(),
        title: String::new(),
        text: vec![Event::Text("hand-written".to_string())],
        id: String::new(),
    };
    sub.apply(link);
    assert_eq!(link.text, vec![Event::Text("hand-written".to_string())]);
}

#[test]
fn replace_text_overrides_existing_label() {
    let sub = substitution("GTPR-", r"\d+", "http://x/issue/$text", 1, false, false, true);
    let link = &mut Link {
        link_type: LinkType::Inline,
        destination: "GTPR-7".to_string(),
        title: String::new(),
        text: vec![Event::Text("hand-written".to_string())],
        id: String::new(),
    };
    sub.apply(link);
    assert_eq!(link.text, vec![Event::Text("GTPR-7".to_string())]);
}

#[test]
fn unknown_shortcut_links_pass_through() {
    let sub = substitution("GTPR-", r"\d+", "http://x/issue/$text", 1, false, false, false);
    let link = &mut Link {
        link_type: LinkType::ShortcutUnknown,
        destination: "GTPR-7".to_string(),
        title: String::new(),
        text: vec![],
        id: String::new(),
    };
    sub.apply(link);
    assert_eq!(link.destination, "GTPR-7".to_string());
    assert_eq!(link.title, String::new());
    assert!(link.text.is_empty());
}

#[test]
fn non_matching_destination_passes_through() {
    let sub = substitution("GTPR-", r"\d+", "http://x/issue/$text", 1, false, false, false);
    let link = &mut Link {
        link_type: LinkType::Inline,
        destination: "https://ordinary.example".to_string(),
        title: String::new(),
        text: vec![],
        id: String::new(),
    };
    sub.apply(link);
    assert_eq!(link.destination, "https://ordinary.example".to_string());
    assert!(link.text.is_empty());
    assert_eq!(link.title, String::new());
}

#[test]
fn invalid_tail_pattern_is_a_config_error() {
    let r = Substitution::new(
        "tag".to_string(),
        "(unclosed".to_string(),
        "x".to_string(),
        1,
        false,
        false,
        false,
    );
    match r {
        Err(ConfigError::InvalidPattern(p)) => {
            assert!(p.contains("(unclosed"));
        }
        Ok(_) => panic!("an invalid pattern must be rejected at load time"),
    }
}

#[test]
fn example_round_trips_through_apply() {
    let sub = Substitution::example();
    let link = &mut Link {
        link_type: LinkType::Reference,
        destination: "PS-1234".to_string(),
        title: String::new(),
        text: vec![],
        id: String::new(),
    };
    sub.apply(link);
    assert_eq!(link.destination, "mycompany.jira.com/issues/PS-1234".to_string());
}
