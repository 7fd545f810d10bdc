//! The registry walk, the broken-reference resolver and the driver.

use markdown_linkify::event::{Event, LinkType};
use markdown_linkify::link::Link;
use markdown_linkify::pipeline::{flatten_aggregations, linkify};
use markdown_linkify::aggregator::aggregate_links;
use markdown_linkify::resolver::{resolve_reference, ReferenceResolution};
use markdown_linkify::substitution::Substitution;
use markdown_linkify::transform::{
    registry, process_replacement, Transformer, TransformAction, Transformers, DocsRustlang,
    Docsrs, apply_docs_resolution, apply_page_resolution,
};

fn substitution(tag: &str, tail: &str, replacement: &str) -> Substitution {
    Substitution::new(
        tag.to_string(),
        tail.to_string(),
        replacement.to_string(),
        1,
        false,
        false,
        false,
    )
    .expect("pattern must compile")
}

fn inline_link(dest: &str) -> Link {
    Link {
        link_type: LinkType::Inline,
        destination: dest.to_string(),
        title: String::new(),
        text: vec![],
        id: String::new(),
    }
}

#[test]
fn first_match_wins() {
    let first = substitution("GTPR-", r"\d+", "http://first/$text");
    let second = substitution("GTPR-", r"\d+", "http://second/$text");
    let replacers = vec![
        Transformer::Substitution(first),
        Transformer::Substitution(second),
    ];
    let mut link = inline_link("GTPR-99");
    let action = process_replacement(&mut link, &replacers);
    assert!(matches!(action, TransformAction::Applied));
    assert_eq!(link.destination, "http://first/99".to_string());
}

#[test]
fn no_transformer_matched_is_not_an_error() {
    let sub = substitution("GTPR-", r"\d+", "http://x/$text");
    let replacers = vec![Transformer::Substitution(sub)];
    let mut link = inline_link("https://plain.example");
    let action = process_replacement(&mut link, &replacers);
    assert!(matches!(action, TransformAction::NoMatch));
    assert_eq!(link.destination, "https://plain.example".to_string());
}

#[test]
fn docs_resolver_reports_its_item() {
    let config = Transformers { regexes: vec![] };
    let replacers = registry(config);
    let mut link = inline_link("rust:Vec");
    let action = process_replacement(&mut link, &replacers);
    let TransformAction::NeedDocs(input) = action else {
        panic!("the documentation resolver must claim rust: links");
    };
    assert_eq!(input, "Vec".to_string());
    assert_eq!(link.destination, "rust:Vec".to_string());
}

#[test]
fn page_resolver_reports_its_url() {
    let config = Transformers { regexes: vec![] };
    let replacers = registry(config);
    let mut link = inline_link("docsrs:https://docs.rs/x");
    let action = process_replacement(&mut link, &replacers);
    let TransformAction::NeedPage(input) = action else {
        panic!("the page resolver must claim docsrs: links");
    };
    assert_eq!(input, "https://docs.rs/x".to_string());
}

#[test]
fn configured_substitution_shadows_builtin() {
    let sub = substitution("rust:", r"\w+", "http://mine/$text");
    let config = Transformers { regexes: vec![sub] };
    let replacers = registry(config);
    let mut link = inline_link("rust:Vec");
    let action = process_replacement(&mut link, &replacers);
    assert!(matches!(action, TransformAction::Applied));
    assert_eq!(link.destination, "http://mine/Vec".to_string());
}

#[test]
fn registry_orders_config_before_builtins() {
    let sub = substitution("A-", r"\d+", "http://a/$text");
    let config = Transformers { regexes: vec![sub] };
    let replacers = registry(config);
    assert_eq!(replacers.len(), 3);
    assert!(matches!(replacers[0], Transformer::Substitution(_)));
    assert!(matches!(replacers[1], Transformer::DocsRustlang(DocsRustlang)));
    assert!(matches!(replacers[2], Transformer::Docsrs(Docsrs)));
}

#[test]
fn reference_resolution_synthesises_destination_and_title() {
    let sub = substitution("GTPR-", r"\d+", "http://x/issue/$text");
    let replacers = vec![Transformer::Substitution(sub)];
    let r = resolve_reference("GTPR-12355", &replacers);
    let ReferenceResolution::Resolved { destination, title } = r else {
        panic!("the substitution must resolve the reference");
    };
    assert_eq!(destination, "http://x/issue/12355".to_string());
    assert_eq!(title, "http://x/issue/12355".to_string());
}

#[test]
fn reference_without_matching_transformer_stays_unresolved() {
    let sub = substitution("GTPR-", r"\d+", "http://x/issue/$text");
    let replacers = vec![Transformer::Substitution(sub)];
    let r = resolve_reference("plain words", &replacers);
    assert!(matches!(r, ReferenceResolution::Unresolved));
}

#[test]
fn reference_to_docs_resolver_reports_the_item() {
    let config = Transformers { regexes: vec![] };
    let replacers = registry(config);
    let r = resolve_reference("rust:String", &replacers);
    let ReferenceResolution::NeedDocs { input } = r else {
        panic!("the documentation resolver must claim the reference");
    };
    assert_eq!(input, "String".to_string());
}

#[test]
fn docs_resolution_defaults_empty_title_and_label() {
    let mut link = inline_link("rust:Vec");
    apply_docs_resolution(
        &mut link,
        "https://doc.rust-lang.org/std/vec/struct.Vec.html".to_string(),
        "Vec".to_string(),
    );
    assert_eq!(
        link.destination,
        "https://doc.rust-lang.org/std/vec/struct.Vec.html".to_string()
    );
    assert_eq!(
        link.title,
        "https://doc.rust-lang.org/std/vec/struct.Vec.html".to_string()
    );
    assert_eq!(link.text, vec![Event::Code("Vec".to_string())]);
}

#[test]
fn docs_resolution_keeps_explicit_title_and_label() {
    let mut link = Link {
        link_type: LinkType::Inline,
        destination: "rust:Vec".to_string(),
        title: "my title".to_string(),
        text: vec![Event::Text("my label".to_string())],
        id: String::new(),
    };
    apply_docs_resolution(&mut link, "https://example".to_string(), "Vec".to_string());
    assert_eq!(link.title, "my title".to_string());
    assert_eq!(link.text, vec![Event::Text("my label".to_string())]);
}

#[test]
fn page_resolution_always_sets_the_label() {
    let mut link = Link {
        link_type: LinkType::Inline,
        destination: "docsrs:https://docs.rs/serde".to_string(),
        title: "kept".to_string(),
        text: vec![Event::Text("old".to_string())],
        id: String::new(),
    };
    apply_page_resolution(&mut link, "https://docs.rs/serde".to_string(), "serde".to_string());
    assert_eq!(link.destination, "https://docs.rs/serde".to_string());
    assert_eq!(link.title, "kept".to_string());
    assert_eq!(link.text, vec![Event::Text("serde".to_string())]);
}

#[test]
fn round_trip_identity_without_matches() {
    let events = vec![
        Event::Other(0),
        Event::StartLink {
            link_type: LinkType::Inline,
            destination: "https://plain.example".to_string(),
            title: "t".to_string(),
            id: String::new(),
        },
        Event::Text("label".to_string()),
        Event::EndLink,
        Event::Other(1),
    ];
    let sub = substitution("GTPR-", r"\d+", "http://x/$text");
    let replacers = vec![Transformer::Substitution(sub)];
    let out = linkify(events.clone(), &replacers);
    assert_eq!(out, events);
}

#[test]
fn linkify_rewrites_matching_links_in_place() {
    let events = vec![
        Event::StartLink {
            link_type: LinkType::Inline,
            destination: "GTPR-5".to_string(),
            title: String::new(),
            id: String::new(),
        },
        Event::Text("see ticket".to_string()),
        Event::EndLink,
    ];
    let sub = substitution("GTPR-", r"\d+", "http://x/issue/$text");
    let replacers = vec![Transformer::Substitution(sub)];
    let out = linkify(events, &replacers);
    assert_eq!(
        out,
        vec![
            Event::StartLink {
                link_type: LinkType::Inline,
                destination: "http://x/issue/5".to_string(),
                title: "http://x/issue/5".to_string(),
                id: String::new(),
            },
            Event::Text("see ticket".to_string()),
            Event::EndLink,
        ]
    );
}

#[test]
fn flatten_restores_aggregated_events() {
    let events = vec![
        Event::Other(7),
        Event::StartLink {
            link_type: LinkType::Reference,
            destination: "d".to_string(),
            title: String::new(),
            id: "ref".to_string(),
        },
        Event::Code("c".to_string()),
        Event::EndLink,
    ];
    let aggs = aggregate_links(&events);
    let back = flatten_aggregations(aggs);
    assert_eq!(back, events);
}

#[test]
fn transformers_example_holds_one_substitution() {
    let example = Transformers::example();
    assert_eq!(example.regexes.len(), 1);
}
