//! The aggregator: a single-pass state machine that folds link spans.
//!
//! Walking over a sequence of events, the aggregator recognises a link's
//! open marker, its inline content and its close marker, and emits them
//! as one [`Aggregation::Link`].  Every other event passes through
//! untouched.  A second open marker before any content is treated as
//! malformed: both raw events are passed on in an inert bag rather than
//! dropped.  An open or half-filled link still standing at the end of
//! the input is flushed as a link, so malformed input never loses data.

use vstd::prelude::*;

use crate::event::{Event, SpecEvent, LinkType};
use crate::link::{Link, SpecLink};
use crate::aggregation::{Aggregation, SpecAggregation, spec_flatten};
use crate::deep_view_util::{lemma_deep_view_push, lemma_deep_view_empty};

verus! {

/// Spec-level value of an [`Aggregator`].
pub enum SpecAggregator {
    Empty,
    Start { link_type: LinkType, destination: Seq<char>, title: Seq<char>, id: Seq<char> },
    Text(SpecLink),
}

/// The aggregator's state: outside any link, just past an open marker,
/// or accumulating a link's inline content.
#[derive(Debug)]
pub enum Aggregator {
    /// Not currently inside a link.
    Empty,
    /// Consumed a link's open marker, no content yet.
    Start { link_type: LinkType, destination: String, title: String, id: String },
    /// Consumed one or more inline content events after the open marker.
    Text(Link),
}

impl View for Aggregator {
    type V = SpecAggregator;

    open spec fn view(&self) -> SpecAggregator {
        match self {
            Aggregator::Empty => SpecAggregator::Empty,
            Aggregator::Start { link_type, destination, title, id } => SpecAggregator::Start {
                link_type: *link_type,
                destination: destination@,
                title: title@,
                id: id@,
            },
            Aggregator::Text(l) => SpecAggregator::Text(l@),
        }
    }
}

impl DeepView for Aggregator {
    type V = SpecAggregator;

    open spec fn deep_view(&self) -> SpecAggregator {
        self.view()
    }
}

/// One transition of the state machine: the state after consuming the
/// event, and the aggregation emitted, if any.
pub open spec fn spec_step(state: SpecAggregator, e: SpecEvent) -> (SpecAggregator, Option<
    SpecAggregation,
>) {
    match state {
        SpecAggregator::Empty => match e {
            SpecEvent::StartLink { link_type, destination, title, id } => (
                SpecAggregator::Start { link_type, destination, title, id },
                None,
            ),
            _ => (SpecAggregator::Empty, Some(SpecAggregation::Event(e))),
        },
        SpecAggregator::Start { link_type, destination, title, id } => {
            let start = SpecEvent::StartLink { link_type, destination, title, id };
            if e is StartLink || e is StartOther {
                (SpecAggregator::Empty, Some(SpecAggregation::Bag(seq![start, e])))
            } else if e is EndLink {
                (
                    SpecAggregator::Empty,
                    Some(SpecAggregation::Link(SpecLink {
                        link_type,
                        destination,
                        title,
                        text: Seq::empty(),
                        id,
                    })),
                )
            } else if e is Text || e is Code {
                (
                    SpecAggregator::Text(SpecLink {
                        link_type,
                        destination,
                        title,
                        text: seq![e],
                        id,
                    }),
                    None,
                )
            } else {
                (
                    SpecAggregator::Start { link_type, destination, title, id },
                    Some(SpecAggregation::Event(e)),
                )
            }
        },
        SpecAggregator::Text(l) => {
            if e is Text || e is Code {
                (
                    SpecAggregator::Text(SpecLink {
                        link_type: l.link_type,
                        destination: l.destination,
                        title: l.title,
                        text: l.text.push(e),
                        id: l.id,
                    }),
                    None,
                )
            } else if e is EndLink {
                (SpecAggregator::Empty, Some(SpecAggregation::Link(l)))
            } else {
                (SpecAggregator::Text(l), Some(SpecAggregation::Event(e)))
            }
        },
    }
}

/// What the end-of-stream flush emits: an open or half-filled link is
/// still delivered; an empty state yields nothing.
pub open spec fn spec_flush(state: SpecAggregator) -> Option<SpecAggregation> {
    match state {
        SpecAggregator::Empty => None,
        SpecAggregator::Start { link_type, destination, title, id } => Some(
            SpecAggregation::Link(SpecLink {
                link_type,
                destination,
                title,
                text: Seq::empty(),
                id,
            }),
        ),
        SpecAggregator::Text(l) => Some(SpecAggregation::Link(l)),
    }
}

/// The emitted aggregation as a sequence: empty for a silent step.
pub open spec fn opt_emission(o: Option<SpecAggregation>) -> Seq<SpecAggregation> {
    match o {
        Some(a) => seq![a],
        None => Seq::empty(),
    }
}

/// Run the state machine over a whole event sequence: the final state
/// and everything emitted on the way, in order.
pub open spec fn spec_run(state: SpecAggregator, events: Seq<SpecEvent>) -> (SpecAggregator, Seq<
    SpecAggregation,
>)
    decreases events.len(),
{
    if events.len() == 0 {
        (state, Seq::empty())
    } else {
        let (s1, out) = spec_step(state, events[0]);
        let (s2, rest) = spec_run(s1, events.drop_first());
        (s2, opt_emission(out) + rest)
    }
}

/// The aggregator's full output on a document: run from the empty state,
/// then flush whatever state remains.
pub open spec fn spec_aggregate(events: Seq<SpecEvent>) -> Seq<SpecAggregation> {
    let (s, out) = spec_run(SpecAggregator::Empty, events);
    out + opt_emission(spec_flush(s))
}

/// Extending a run by one event on the right appends that event's step.
pub proof fn lemma_run_snoc(state: SpecAggregator, events: Seq<SpecEvent>, e: SpecEvent)
    ensures
        spec_run(state, events.push(e)).0 == spec_step(spec_run(state, events).0, e).0,
        spec_run(state, events.push(e)).1 == spec_run(state, events).1 + opt_emission(
            spec_step(spec_run(state, events).0, e).1,
        ),
    decreases events.len(),
{
    reveal_with_fuel(spec_run, 2);
    let whole = events.push(e);
    if events.len() == 0 {
        assert(whole[0] == e);
        assert(whole.drop_first() =~= Seq::<SpecEvent>::empty());
        assert(spec_run(state, whole).1 =~= spec_run(state, events).1 + opt_emission(
            spec_step(spec_run(state, events).0, e).1,
        ));
    } else {
        assert(whole[0] == events[0]);
        assert(whole.drop_first() =~= events.drop_first().push(e));
        let (s1, out) = spec_step(state, events[0]);
        lemma_run_snoc(s1, events.drop_first(), e);
        assert(spec_run(state, whole).1 =~= spec_run(state, events).1 + opt_emission(
            spec_step(spec_run(state, events).0, e).1,
        ));
    }
}

/// The events a state still holds: nothing, an open marker, or an open
/// marker with the content accumulated so far.
pub open spec fn spec_pending(state: SpecAggregator) -> Seq<SpecEvent> {
    match state {
        SpecAggregator::Empty => Seq::empty(),
        SpecAggregator::Start { link_type, destination, title, id } => seq![
            SpecEvent::StartLink { link_type, destination, title, id },
        ],
        SpecAggregator::Text(l) => seq![
            SpecEvent::StartLink {
                link_type: l.link_type,
                destination: l.destination,
                title: l.title,
                id: l.id,
            },
        ] + l.text,
    }
}

/// The events an emitted aggregation stands for, for a silent step none.
pub open spec fn opt_expand(o: Option<SpecAggregation>) -> Seq<SpecEvent> {
    match o {
        Some(a) => crate::aggregation::spec_expand(a),
        None => Seq::empty(),
    }
}

/// A step that does not hit the defensive fallback while a link is held
/// open.  Only that fallback emits the incoming event ahead of the held
/// open marker, the one transition that reorders the stream.
pub open spec fn spec_step_orderly(state: SpecAggregator, e: SpecEvent) -> bool {
    match state {
        SpecAggregator::Empty => true,
        SpecAggregator::Start { .. } => e is StartLink || e is StartOther || e is EndLink
            || e is Text || e is Code,
        SpecAggregator::Text(_) => e is Text || e is Code || e is EndLink,
    }
}

/// Every step of the run from `state` over `events` is orderly.
pub open spec fn spec_run_orderly(state: SpecAggregator, events: Seq<SpecEvent>) -> bool
    decreases events.len(),
{
    events.len() == 0 || (spec_step_orderly(state, events[0]) && spec_run_orderly(
        spec_step(state, events[0]).0,
        events.drop_first(),
    ))
}

/// An orderly step conserves the stream: what was held plus the incoming
/// event equals what is emitted plus what is held afterwards.
pub proof fn lemma_step_exact(state: SpecAggregator, e: SpecEvent)
    requires
        spec_step_orderly(state, e),
    ensures
        opt_expand(spec_step(state, e).1) + spec_pending(spec_step(state, e).0) == spec_pending(
            state,
        ) + seq![e],
{
    assert(opt_expand(spec_step(state, e).1) + spec_pending(spec_step(state, e).0) =~= spec_pending(
        state,
    ) + seq![e]);
}

/// An orderly run conserves the stream: everything emitted plus what the
/// final state still holds equals what the initial state held plus the
/// input.
pub proof fn lemma_run_exact(state: SpecAggregator, events: Seq<SpecEvent>)
    requires
        spec_run_orderly(state, events),
    ensures
        spec_flatten(spec_run(state, events).1) + spec_pending(spec_run(state, events).0)
            == spec_pending(state) + events,
    decreases events.len(),
{
    if events.len() == 0 {
        assert(spec_flatten(spec_run(state, events).1) + spec_pending(spec_run(state, events).0)
            =~= spec_pending(state) + events);
    } else {
        let e = events[0];
        let (s1, out) = spec_step(state, e);
        lemma_step_exact(state, e);
        lemma_run_exact(s1, events.drop_first());
        crate::aggregation::lemma_flatten_concat(opt_emission(out), spec_run(s1, events.drop_first()).1);
        match out {
            Some(a) => {
                crate::aggregation::lemma_flatten_one(a);
            },
            None => {
                assert(spec_flatten(opt_emission(out)) =~= opt_expand(out));
            },
        }
        let rest = events.drop_first();
        let emitted = opt_expand(out);
        let flat_rest = spec_flatten(spec_run(s1, rest).1);
        let held = spec_pending(spec_run(s1, rest).0);
        assert(spec_run(state, events).1 == opt_emission(out) + spec_run(s1, rest).1);
        assert(spec_flatten(spec_run(state, events).1) == emitted + flat_rest);
        assert((emitted + flat_rest) + held =~= emitted + (flat_rest + held));
        assert(flat_rest + held == spec_pending(s1) + rest);
        assert(emitted + (spec_pending(s1) + rest) =~= (emitted + spec_pending(s1)) + rest);
        assert(emitted + spec_pending(s1) == spec_pending(state) + seq![e]);
        assert((spec_pending(state) + seq![e]) + rest =~= spec_pending(state) + events);
    }
}

/// An orderly run that ends outside any link reproduces its input: the
/// concatenated expansions of everything the aggregator emits, flush
/// included, are the unmodified event sequence.
pub proof fn lemma_aggregate_round_trip(events: Seq<SpecEvent>)
    requires
        spec_run_orderly(SpecAggregator::Empty, events),
        spec_run(SpecAggregator::Empty, events).0 is Empty,
    ensures
        spec_flatten(spec_aggregate(events)) == events,
{
    lemma_run_exact(SpecAggregator::Empty, events);
    let (s, out) = spec_run(SpecAggregator::Empty, events);
    crate::aggregation::lemma_flatten_concat(out, opt_emission(spec_flush(s)));
    assert(spec_flatten(spec_aggregate(events)) =~= events);
}

/// From an accumulating state, inline content followed by a close marker
/// emits exactly the accumulated link.
proof fn lemma_run_text_state(l: SpecLink, inlines: Seq<SpecEvent>)
    requires
        forall|i: int| 0 <= i < inlines.len() ==> crate::event::is_inline_content(
            #[trigger] inlines[i],
        ),
    ensures
        spec_run(SpecAggregator::Text(l), inlines + seq![SpecEvent::EndLink]).0
            is Empty,
        spec_run(SpecAggregator::Text(l), inlines + seq![SpecEvent::EndLink]).1 == seq![
            SpecAggregation::Link(SpecLink {
                link_type: l.link_type,
                destination: l.destination,
                title: l.title,
                text: l.text + inlines,
                id: l.id,
            }),
        ],
    decreases inlines.len(),
{
    reveal_with_fuel(spec_run, 2);
    let whole = inlines + seq![SpecEvent::EndLink];
    if inlines.len() == 0 {
        assert(whole[0] == SpecEvent::EndLink);
        assert(whole.drop_first() =~= Seq::<SpecEvent>::empty());
        assert(l.text + inlines =~= l.text);
        assert(spec_run(SpecAggregator::Text(l), whole).1 =~= seq![SpecAggregation::Link(l)]);
    } else {
        let e = whole[0];
        assert(e == inlines[0]);
        assert(whole.drop_first() =~= inlines.drop_first() + seq![SpecEvent::EndLink]);
        let l1 = SpecLink {
            link_type: l.link_type,
            destination: l.destination,
            title: l.title,
            text: l.text.push(e),
            id: l.id,
        };
        lemma_run_text_state(l1, inlines.drop_first());
        assert(l.text.push(e) + inlines.drop_first() =~= l.text + inlines);
        assert(spec_run(SpecAggregator::Text(l), whole).1 =~= seq![
            SpecAggregation::Link(SpecLink {
                link_type: l.link_type,
                destination: l.destination,
                title: l.title,
                text: l.text + inlines,
                id: l.id,
            }),
        ]);
    }
}

/// Aggregation completeness over one well-formed link span: open marker,
/// inline content, close marker.  The aggregator emits exactly one link
/// for the span, its label the inline events in order, and carries on
/// with the rest of the document as if starting fresh.
pub proof fn lemma_aggregation_completeness(
    link_type: LinkType,
    destination: Seq<char>,
    title: Seq<char>,
    id: Seq<char>,
    inlines: Seq<SpecEvent>,
    rest: Seq<SpecEvent>,
)
    requires
        forall|i: int| 0 <= i < inlines.len() ==> crate::event::is_inline_content(
            #[trigger] inlines[i],
        ),
    ensures
        ({
            let span = seq![SpecEvent::StartLink { link_type, destination, title, id }] + inlines
                + seq![SpecEvent::EndLink];
            let l = SpecLink { link_type, destination, title, text: inlines, id };
            spec_run(SpecAggregator::Empty, span + rest).0 == spec_run(
                SpecAggregator::Empty,
                rest,
            ).0 && spec_run(SpecAggregator::Empty, span + rest).1 == seq![
                SpecAggregation::Link(l),
            ] + spec_run(SpecAggregator::Empty, rest).1
        }),
{
    reveal_with_fuel(spec_run, 4);
    let start = SpecEvent::StartLink { link_type, destination, title, id };
    let span = seq![start] + inlines + seq![SpecEvent::EndLink];
    let l = SpecLink { link_type, destination, title, text: inlines, id };
    lemma_run_concat(SpecAggregator::Empty, span, rest);
    assert(span[0] == start);
    assert(span.drop_first() =~= inlines + seq![SpecEvent::EndLink]);
    let after_start = SpecAggregator::Start { link_type, destination, title, id };
    assert(spec_step(SpecAggregator::Empty, start).0 == after_start);
    if inlines.len() == 0 {
        assert(span.drop_first()[0] == SpecEvent::EndLink);
        assert(span.drop_first().drop_first() =~= Seq::<SpecEvent>::empty());
        assert(inlines =~= Seq::<SpecEvent>::empty());
        assert(spec_run(SpecAggregator::Empty, span).1 =~= seq![SpecAggregation::Link(l)]);
    } else {
        let e = inlines[0];
        assert(span.drop_first()[0] == e);
        assert(span.drop_first().drop_first() =~= inlines.drop_first() + seq![SpecEvent::EndLink]);
        let l1 = SpecLink { link_type, destination, title, text: seq![e], id };
        lemma_run_text_state(l1, inlines.drop_first());
        assert(seq![e] + inlines.drop_first() =~= inlines);
        assert(spec_run(SpecAggregator::Empty, span).1 =~= seq![SpecAggregation::Link(l)]);
    }
    assert(spec_run(SpecAggregator::Empty, span + rest).1 =~= seq![SpecAggregation::Link(l)]
        + spec_run(SpecAggregator::Empty, rest).1);
}

/// Composing a run over a concatenation: run the first part, then the
/// second from where the first left off.
pub proof fn lemma_run_concat(state: SpecAggregator, a: Seq<SpecEvent>, b: Seq<SpecEvent>)
    ensures
        spec_run(state, a + b).0 == spec_run(spec_run(state, a).0, b).0,
        spec_run(state, a + b).1 == spec_run(state, a).1 + spec_run(spec_run(state, a).0, b).1,
    decreases a.len(),
{
    if a.len() == 0 {
        assert(a + b =~= b);
        assert(spec_run(state, a + b).1 =~= spec_run(state, a).1 + spec_run(
            spec_run(state, a).0,
            b,
        ).1);
    } else {
        assert((a + b)[0] == a[0]);
        assert((a + b).drop_first() =~= a.drop_first() + b);
        let (s1, out) = spec_step(state, a[0]);
        lemma_run_concat(s1, a.drop_first(), b);
        assert(spec_run(state, a + b).1 =~= spec_run(state, a).1 + spec_run(
            spec_run(state, a).0,
            b,
        ).1);
    }
}

/// Unterminated-link flush: a document ending inside an open link still
/// yields exactly one link holding whatever content was accumulated.
pub proof fn lemma_unterminated_flush(
    link_type: LinkType,
    destination: Seq<char>,
    title: Seq<char>,
    id: Seq<char>,
    inlines: Seq<SpecEvent>,
)
    requires
        forall|i: int| 0 <= i < inlines.len() ==> crate::event::is_inline_content(
            #[trigger] inlines[i],
        ),
    ensures
        spec_aggregate(
            seq![SpecEvent::StartLink { link_type, destination, title, id }] + inlines,
        ) == seq![
            SpecAggregation::Link(SpecLink { link_type, destination, title, text: inlines, id }),
        ],
{
    reveal_with_fuel(spec_run, 2);
    let start = SpecEvent::StartLink { link_type, destination, title, id };
    let doc = seq![start] + inlines;
    let after_start = SpecAggregator::Start { link_type, destination, title, id };
    assert(doc[0] == start);
    assert(doc.drop_first() =~= inlines);
    assert(spec_step(SpecAggregator::Empty, start).0 == after_start);
    if inlines.len() == 0 {
        assert(inlines =~= Seq::<SpecEvent>::empty());
        assert(spec_aggregate(doc) =~= seq![
            SpecAggregation::Link(SpecLink { link_type, destination, title, text: inlines, id }),
        ]);
    } else {
        let e = inlines[0];
        let l1 = SpecLink { link_type, destination, title, text: seq![e], id };
        lemma_run_text_accumulates(l1, inlines.drop_first());
        assert(seq![e] + inlines.drop_first() =~= inlines);
        assert(spec_aggregate(doc) =~= seq![
            SpecAggregation::Link(SpecLink { link_type, destination, title, text: inlines, id }),
        ]);
    }
}

/// From an accumulating state, inline content with no close marker only
/// grows the held link; nothing is emitted.
proof fn lemma_run_text_accumulates(l: SpecLink, inlines: Seq<SpecEvent>)
    requires
        forall|i: int| 0 <= i < inlines.len() ==> crate::event::is_inline_content(
            #[trigger] inlines[i],
        ),
    ensures
        spec_run(SpecAggregator::Text(l), inlines).0 == SpecAggregator::Text(
            SpecLink {
                link_type: l.link_type,
                destination: l.destination,
                title: l.title,
                text: l.text + inlines,
                id: l.id,
            },
        ),
        spec_run(SpecAggregator::Text(l), inlines).1 == Seq::<SpecAggregation>::empty(),
    decreases inlines.len(),
{
    if inlines.len() == 0 {
        assert(l.text + inlines =~= l.text);
        assert(SpecLink {
            link_type: l.link_type,
            destination: l.destination,
            title: l.title,
            text: l.text + inlines,
            id: l.id,
        } == l);
    } else {
        let e = inlines[0];
        let l1 = SpecLink {
            link_type: l.link_type,
            destination: l.destination,
            title: l.title,
            text: l.text.push(e),
            id: l.id,
        };
        lemma_run_text_accumulates(l1, inlines.drop_first());
        assert(l.text.push(e) + inlines.drop_first() =~= l.text + inlines);
        assert(spec_run(SpecAggregator::Text(l), inlines).1 =~= Seq::<SpecAggregation>::empty());
    }
}

impl Aggregator {
    /// Consume one event: advance the state and emit at most one
    /// aggregation, exactly as [`spec_step`] says.
    pub fn push(&mut self, event: Event) -> (r: Option<Aggregation>)
        ensures
            final(self)@ == spec_step(old(self)@, event@).0,
            r.deep_view() == spec_step(old(self)@, event@).1,
    {
        let ghost s0 = old(self)@;
        let ghost e0 = event@;
        let mut state = Aggregator::Empty;
        core::mem::swap(self, &mut state);
        match (state, event) {
            (Aggregator::Empty, Event::StartLink { link_type, destination, title, id }) => {
                *self = Aggregator::Start { link_type, destination, title, id };
                None
            },
            (Aggregator::Empty, e) => Some(Aggregation::Event(e)),
            (
                Aggregator::Start { link_type, destination, title, id },
                e @ (Event::StartLink { .. } | Event::StartOther(_)),
            ) => {
                let start = Event::StartLink { link_type, destination, title, id };
                let ghost start_spec = start@;
                let mut bag: Vec<Event> = Vec::new();
                bag.push(start);
                bag.push(e);
                proof {
                    assert(bag.deep_view() =~= seq![start_spec, e0]);
                }
                Some(Aggregation::Bag(bag))
            },
            (Aggregator::Start { link_type, destination, title, id }, Event::EndLink) => {
                let text: Vec<Event> = Vec::new();
                proof {
                    lemma_deep_view_empty(text);
                }
                Some(Aggregation::Link(Link { link_type, destination, title, text, id }))
            },
            (
                Aggregator::Start { link_type, destination, title, id },
                e @ (Event::Text(_) | Event::Code(_)),
            ) => {
                let mut text: Vec<Event> = Vec::new();
                text.push(e);
                proof {
                    assert(text.deep_view() =~= seq![e0]);
                }
                *self = Aggregator::Text(Link { link_type, destination, title, text, id });
                None
            },
            (Aggregator::Text(link), e @ (Event::Text(_) | Event::Code(_))) => {
                let ghost text0 = link.text;
                let mut link = link;
                link.text.push(e);
                proof {
                    lemma_deep_view_push(text0, link.text, e);
                }
                *self = Aggregator::Text(link);
                None
            },
            (Aggregator::Text(link), Event::EndLink) => Some(Aggregation::Link(link)),
            (state, e) => {
                *self = state;
                Some(Aggregation::Event(e))
            },
        }
    }

    /// End of stream: deliver whatever the state still holds and reset.
    pub fn flush(&mut self) -> (r: Option<Aggregation>)
        ensures
            final(self)@ == SpecAggregator::Empty,
            r.deep_view() == spec_flush(old(self)@),
    {
        let mut state = Aggregator::Empty;
        core::mem::swap(self, &mut state);
        match state {
            Aggregator::Empty => None,
            Aggregator::Start { link_type, destination, title, id } => {
                let text: Vec<Event> = Vec::new();
                proof {
                    lemma_deep_view_empty(text);
                }
                Some(Aggregation::Link(Link { link_type, destination, title, text, id }))
            },
            Aggregator::Text(link) => Some(Aggregation::Link(link)),
        }
    }
}

/// An aggregator together with its output so far: the state a caller
/// threads through a document pass.
#[derive(Debug)]
pub struct LinkAggregator {
    pub state: Aggregator,
}

impl LinkAggregator {
    /// A fresh aggregator, outside any link.
    pub fn new() -> (r: Self)
        ensures
            r.state@ == SpecAggregator::Empty,
    {
        LinkAggregator { state: Aggregator::Empty }
    }
}

/// Aggregate a whole event sequence: every link span becomes one
/// [`Aggregation::Link`], everything else passes through, and an
/// unterminated link is flushed at the end.
pub fn aggregate_links(events: &Vec<Event>) -> (r: Vec<Aggregation>)
    ensures
        r.deep_view() == spec_aggregate(events.deep_view()),
{
    let ghost all = events.deep_view();
    let mut agg = LinkAggregator::new();
    let mut out: Vec<Aggregation> = Vec::new();
    proof {
        lemma_deep_view_empty(out);
        assert(all.take(0) =~= Seq::<SpecEvent>::empty());
    }
    let mut i: usize = 0;
    while i < events.len()
        invariant
            i <= events.len(),
            all == events.deep_view(),
            agg.state@ == spec_run(SpecAggregator::Empty, all.take(i as int)).0,
            out.deep_view() == spec_run(SpecAggregator::Empty, all.take(i as int)).1,
        decreases events.len() - i,
    {
        let ghost prefix = all.take(i as int);
        let ghost ei = all[i as int];
        let stepped = agg.state.push(events[i].clone());
        proof {
            lemma_run_snoc(SpecAggregator::Empty, prefix, ei);
            assert(all.take(i + 1 as int) =~= prefix.push(ei));
        }
        match stepped {
            Some(a) => {
                let ghost out0 = out;
                out.push(a);
                proof {
                    lemma_deep_view_push(out0, out, a);
                }
            },
            None => {},
        }
        i += 1;
    }
    proof {
        assert(all.take(events.len() as int) =~= all);
    }
    let flushed = agg.state.flush();
    match flushed {
        Some(a) => {
            let ghost out0 = out;
            out.push(a);
            proof {
                lemma_deep_view_push(out0, out, a);
                assert(out.deep_view() =~= spec_aggregate(all));
            }
        },
        None => {
            proof {
                assert(out.deep_view() =~= spec_aggregate(all));
            }
        },
    }
    out
}

} // verus!
