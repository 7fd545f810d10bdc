//! The aggregator's output unit.

use vstd::prelude::*;

use crate::event::{Event, SpecEvent};
use crate::link::{Link, SpecLink, spec_link_events, clone_events};

verus! {

/// Spec-level value of an [`Aggregation`].
pub enum SpecAggregation {
    Event(SpecEvent),
    Bag(Seq<SpecEvent>),
    Link(SpecLink),
}

/// One output unit of the aggregator: a pass-through event, an inert bag
/// of events from a malformed link opening, or one assembled link.
#[derive(Debug)]
pub enum Aggregation {
    Event(Event),
    Bag(Vec<Event>),
    Link(Link),
}

impl View for Aggregation {
    type V = SpecAggregation;

    open spec fn view(&self) -> SpecAggregation {
        match self {
            Aggregation::Event(e) => SpecAggregation::Event(e@),
            Aggregation::Bag(events) => SpecAggregation::Bag(events.deep_view()),
            Aggregation::Link(l) => SpecAggregation::Link(l@),
        }
    }
}

impl DeepView for Aggregation {
    type V = SpecAggregation;

    open spec fn deep_view(&self) -> SpecAggregation {
        self.view()
    }
}

impl Clone for Aggregation {
    fn clone(&self) -> (r: Self)
        ensures
            r@ == self@,
    {
        match self {
            Aggregation::Event(e) => Aggregation::Event(e.clone()),
            Aggregation::Bag(events) => Aggregation::Bag(clone_events(events)),
            Aggregation::Link(l) => Aggregation::Link(l.clone()),
        }
    }
}

/// The events an aggregation stands for: itself, its bag's contents, or
/// the link's event-sequence encoding.
pub open spec fn spec_expand(a: SpecAggregation) -> Seq<SpecEvent> {
    match a {
        SpecAggregation::Event(e) => seq![e],
        SpecAggregation::Bag(events) => events,
        SpecAggregation::Link(l) => spec_link_events(l),
    }
}

/// The concatenated expansions of a sequence of aggregations, in order.
pub open spec fn spec_flatten(aggs: Seq<SpecAggregation>) -> Seq<SpecEvent>
    decreases aggs.len(),
{
    if aggs.len() == 0 {
        Seq::empty()
    } else {
        spec_expand(aggs[0]) + spec_flatten(aggs.drop_first())
    }
}

/// Flattening distributes over concatenation of aggregation sequences.
pub proof fn lemma_flatten_concat(a: Seq<SpecAggregation>, b: Seq<SpecAggregation>)
    ensures
        spec_flatten(a + b) == spec_flatten(a) + spec_flatten(b),
    decreases a.len(),
{
    if a.len() == 0 {
        assert(a + b =~= b);
        assert(spec_flatten(a) + spec_flatten(b) =~= spec_flatten(b));
    } else {
        assert((a + b)[0] == a[0]);
        assert((a + b).drop_first() =~= a.drop_first() + b);
        lemma_flatten_concat(a.drop_first(), b);
        assert(spec_flatten(a + b) =~= spec_flatten(a) + spec_flatten(b));
    }
}

/// Flattening a single aggregation is its expansion.
pub proof fn lemma_flatten_one(a: SpecAggregation)
    ensures
        spec_flatten(seq![a]) == spec_expand(a),
{
    reveal_with_fuel(spec_flatten, 2);
    assert(seq![a].drop_first() =~= Seq::<SpecAggregation>::empty());
    assert(spec_flatten(seq![a]) =~= spec_expand(a));
}

impl Aggregation {
    /// Expand the aggregation into the events it stands for.
    pub fn into_iter(self) -> (r: Vec<Event>)
        ensures
            r.deep_view() == spec_expand(self@),
    {
        match self {
            Aggregation::Event(e) => {
                let mut r: Vec<Event> = Vec::new();
                r.push(e);
                proof {
                    assert(r.deep_view() =~= spec_expand(self@));
                }
                r
            },
            Aggregation::Bag(events) => events,
            Aggregation::Link(l) => l.into_iter(),
        }
    }
}

} // verus!
