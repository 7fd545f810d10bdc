//! Aggregator behaviour over parsed markdown documents.

use markdown_linkify::aggregation::Aggregation;
use markdown_linkify::aggregator::{aggregate_links, Aggregator, LinkAggregator};
use markdown_linkify::event::{Event, LinkType};

use pulldown_cmark::{BrokenLink, CowStr, Options, Parser};
use pulldown_cmark_to_cmark::cmark;

/// Convert parsed markdown events into the library's event model.
/// Events the library does not inspect are parked in `side` and carried
/// by index.
fn convert<'a>(
    events: impl Iterator<Item = pulldown_cmark::Event<'a>>,
    side: &mut Vec<pulldown_cmark::Event<'a>>,
) -> Vec<Event> {
    let mut out = Vec::new();
    for ev in events {
        out.push(convert_one(ev, side));
    }
    out
}

fn convert_one<'a>(
    ev: pulldown_cmark::Event<'a>,
    side: &mut Vec<pulldown_cmark::Event<'a>>,
) -> Event {
    match ev {
        pulldown_cmark::Event::Start(pulldown_cmark::Tag::Link {
            link_type,
            dest_url,
            title,
            id,
        }) => Event::StartLink {
            link_type: convert_link_type(link_type),
            destination: dest_url.to_string(),
            title: title.to_string(),
            id: id.to_string(),
        },
        pulldown_cmark::Event::End(pulldown_cmark::TagEnd::Link) => Event::EndLink,
        pulldown_cmark::Event::Text(s) => Event::Text(s.to_string()),
        pulldown_cmark::Event::Code(s) => Event::Code(s.to_string()),
        pulldown_cmark::Event::Html(s) => Event::Html(s.to_string()),
        pulldown_cmark::Event::Start(tag) => {
            side.push(pulldown_cmark::Event::Start(tag));
            Event::StartOther(side.len() - 1)
        }
        pulldown_cmark::Event::End(tag) => {
            side.push(pulldown_cmark::Event::End(tag));
            Event::EndOther(side.len() - 1)
        }
        other => {
            side.push(other);
            Event::Other(side.len() - 1)
        }
    }
}

fn convert_link_type(lt: pulldown_cmark::LinkType) -> LinkType {
    match lt {
        pulldown_cmark::LinkType::Inline => LinkType::Inline,
        pulldown_cmark::LinkType::Reference => LinkType::Reference,
        pulldown_cmark::LinkType::ReferenceUnknown => LinkType::ReferenceUnknown,
        pulldown_cmark::LinkType::Collapsed => LinkType::Collapsed,
        pulldown_cmark::LinkType::CollapsedUnknown => LinkType::CollapsedUnknown,
        pulldown_cmark::LinkType::Shortcut => LinkType::Shortcut,
        pulldown_cmark::LinkType::ShortcutUnknown => LinkType::ShortcutUnknown,
        pulldown_cmark::LinkType::Autolink => LinkType::Autolink,
        pulldown_cmark::LinkType::Email => LinkType::Email,
        pulldown_cmark::LinkType::WikiLink { .. } => LinkType::Inline,
    }
}

#[test]
fn aggregates_md() {
    let md = "# HEADING\n[simple](link \"right?\")\n## more heading";
    let parser = Parser::new(md);
    let mut side = Vec::new();
    let events = convert(parser, &mut side);
    for elem in aggregate_links(&events) {
        let _ = elem;
    }
}

#[test]
fn aggregates_simple_link() {
    let md = "[simple](link \"right?\")";
    let parser = Parser::new(md);
    let mut side = Vec::new();
    let events = convert(parser, &mut side);

    for agg in aggregate_links(&events) {
        let Aggregation::Link(link) = agg else {
            continue;
        };
        assert_eq!(link.text, vec![Event::Text("simple".to_string())]);
        assert_eq!(link.destination, "link".to_string());
        assert_eq!(link.title, "right?".to_string());
        assert_eq!(link.link_type, LinkType::Inline);
        return;
    }
    panic!("Should return above");
}

#[test]
fn aggregates_empty_code() {
    let md = "[``](thing \"titleee?\")";
    let parser = Parser::new(md);
    let mut side = Vec::new();
    let events = convert(parser, &mut side);

    for agg in aggregate_links(&events) {
        let Aggregation::Link(link) = agg else {
            continue;
        };
        assert_eq!(link.text, vec![Event::Text("``".to_string())]);
        assert_eq!(link.destination, "thing".to_string());
        assert_eq!(link.title, "titleee?".to_string());
        assert_eq!(link.link_type, LinkType::Inline);
    }
}

#[test]
fn broken_link_callback() {
    fn callback<'a>(link: BrokenLink<'a>) -> Option<(CowStr<'a>, CowStr<'a>)> {
        Some(("destination".into(), link.reference))
    }
    let md = "[foo `this` works `nicely`]";
    let mut cb = callback;
    let parser = Parser::new_with_broken_link_callback(md, Options::empty(), Some(&mut cb));

    let mut buf = String::new();
    let _state = cmark(parser, &mut buf, Options::empty()).expect("CMark failed");
    println!("{buf}");
}

#[test]
fn iterate_over_everything() {
    let md = "# HEADING\n[simple](link \"right?\")";
    let parser = Parser::new(md);
    let mut side = Vec::new();
    let events = convert(parser, &mut side);

    let parser2 = Parser::new(md);
    let mut side2 = Vec::new();
    let mut expected = convert(parser2, &mut side2).into_iter();

    for agg in aggregate_links(&events) {
        for elem in agg.into_iter() {
            assert_eq!(Some(elem), expected.next());
        }
    }
}

#[test]
fn empty_links() {
    let md = "[]()";
    let parser = Parser::new(md);
    let mut side = Vec::new();
    let events = convert(parser, &mut side);
    let aggs = aggregate_links(&events);
    let agg = aggs.into_iter().nth(1).unwrap();
    let Aggregation::Link(link) = agg else {
        panic!("second aggregation should be the empty link");
    };
    assert_eq!(link.text, Vec::<Event>::new());
    assert_eq!(link.destination, String::new());
}

#[test]
fn push_and_flush_follow_the_transition_table() {
    let mut state = Aggregator::Empty;
    assert!(state
        .push(Event::StartLink {
            link_type: LinkType::Inline,
            destination: "d".to_string(),
            title: "t".to_string(),
            id: String::new(),
        })
        .is_none());
    assert!(state.push(Event::Text("label".to_string())).is_none());
    let out = state.push(Event::EndLink).expect("close must emit the link");
    let Aggregation::Link(link) = out else {
        panic!("expected a link aggregation");
    };
    assert_eq!(link.destination, "d".to_string());
    assert_eq!(link.text, vec![Event::Text("label".to_string())]);
    assert!(state.flush().is_none());
}

#[test]
fn second_open_marker_becomes_a_bag() {
    let events = vec![
        Event::StartLink {
            link_type: LinkType::Inline,
            destination: "d".to_string(),
            title: String::new(),
            id: String::new(),
        },
        Event::StartOther(0),
    ];
    let aggs = aggregate_links(&events);
    assert_eq!(aggs.len(), 1);
    let Aggregation::Bag(bag) = &aggs[0] else {
        panic!("expected a bag");
    };
    assert_eq!(bag.len(), 2);
    assert_eq!(bag[0], events[0]);
    assert_eq!(bag[1], events[1]);
}

#[test]
fn unterminated_link_is_flushed() {
    let events = vec![
        Event::StartLink {
            link_type: LinkType::Inline,
            destination: "d".to_string(),
            title: String::new(),
            id: String::new(),
        },
        Event::Text("half".to_string()),
    ];
    let aggs = aggregate_links(&events);
    assert_eq!(aggs.len(), 1);
    let Aggregation::Link(link) = &aggs[0] else {
        panic!("expected the flushed link");
    };
    assert_eq!(link.text, vec![Event::Text("half".to_string())]);
}

#[test]
fn empty_code_label_is_kept_not_dropped() {
    let events = vec![
        Event::StartLink {
            link_type: LinkType::Inline,
            destination: "dest".to_string(),
            title: "t".to_string(),
            id: String::new(),
        },
        Event::Code(String::new()),
        Event::EndLink,
    ];
    let aggs = aggregate_links(&events);
    assert_eq!(aggs.len(), 1);
    let Aggregation::Link(link) = &aggs[0] else {
        panic!("expected a link");
    };
    assert_eq!(link.text, vec![Event::Code(String::new())]);
    let expanded: Vec<Event> = aggs.into_iter().next().unwrap().into_iter();
    assert_eq!(expanded, events);
}

#[test]
fn one_link_per_well_formed_span() {
    let events = vec![
        Event::Other(0),
        Event::StartLink {
            link_type: LinkType::Inline,
            destination: "d".to_string(),
            title: String::new(),
            id: String::new(),
        },
        Event::Text("a".to_string()),
        Event::Code("b".to_string()),
        Event::EndLink,
        Event::Other(1),
    ];
    let aggs = aggregate_links(&events);
    assert_eq!(aggs.len(), 3);
    assert!(matches!(&aggs[0], Aggregation::Event(Event::Other(0))));
    let Aggregation::Link(link) = &aggs[1] else {
        panic!("expected the span's link");
    };
    assert_eq!(
        link.text,
        vec![Event::Text("a".to_string()), Event::Code("b".to_string())]
    );
    assert!(matches!(&aggs[2], Aggregation::Event(Event::Other(1))));
}

#[test]
fn aggregator_state_starts_empty() {
    let agg = LinkAggregator::new();
    assert!(matches!(agg.state, Aggregator::Empty));
}
