//! The pipeline: aggregate, transform each link, flatten back.
//!
//! The driver takes a parsed document as an event sequence, folds every
//! link span into one aggregation, offers each link to the registry
//! (first match wins), and flattens the results back into events ready
//! for serialisation.  Links claimed by a built-in resolver need outside
//! work that cannot happen here; this driver leaves them unchanged, and
//! a caller that performs the outside work drives the same pieces —
//! [`aggregate_links`], [`process_replacement`], the resolution
//! rewrites, [`flatten_aggregations`] — one link at a time.

use vstd::prelude::*;

use crate::event::{Event, SpecEvent};
use crate::aggregation::{
    Aggregation, SpecAggregation, spec_flatten, spec_expand, lemma_flatten_concat,
    lemma_flatten_one,
};
use crate::aggregator::{
    aggregate_links, spec_aggregate, spec_run, spec_run_orderly, SpecAggregator,
    lemma_aggregate_round_trip,
};
use crate::transform::{
    Transformer, SpecTransformer, process_replacement, spec_transform_outcome, spec_first_match,
};
use crate::deep_view_util::{lemma_deep_view_concat, lemma_deep_view_empty};

verus! {

/// Flatten aggregations back into the events they stand for, in order.
pub fn flatten_aggregations(aggs: Vec<Aggregation>) -> (r: Vec<Event>)
    ensures
        r.deep_view() == spec_flatten(aggs.deep_view()),
{
    let ghost all = aggs.deep_view();
    let mut r: Vec<Event> = Vec::new();
    proof {
        lemma_deep_view_empty(r);
        assert(spec_flatten(all.take(0)) =~= Seq::<SpecEvent>::empty());
    }
    let mut i: usize = 0;
    let n = aggs.len();
    while i < n
        invariant
            i <= n,
            n == aggs@.len(),
            all == aggs.deep_view(),
            r.deep_view() == spec_flatten(all.take(i as int)),
        decreases n - i,
    {
        let a = aggs[i].clone();
        let ghost av = all[i as int];
        let mut evs = a.into_iter();
        let ghost r0 = r;
        let ghost evs0 = evs;
        r.append(&mut evs);
        proof {
            lemma_deep_view_concat(r0, evs0, r);
            assert(all.take(i + 1 as int) =~= all.take(i as int) + seq![av]);
            lemma_flatten_concat(all.take(i as int), seq![av]);
            lemma_flatten_one(av);
        }
        i += 1;
    }
    proof {
        assert(all.take(n as int) =~= all);
    }
    r
}

/// What the pure driver makes of one aggregation: a link is offered to
/// the registry, everything else passes through untouched.
pub open spec fn spec_transform_agg(reg: Seq<SpecTransformer>, a: SpecAggregation) -> SpecAggregation {
    match a {
        SpecAggregation::Link(l) => SpecAggregation::Link(spec_transform_outcome(reg, l)),
        _ => a,
    }
}

/// The pure pipeline on a whole document: aggregate, transform each
/// link by the registry's first matching rule, flatten back to events.
pub open spec fn spec_linkify(events: Seq<SpecEvent>, reg: Seq<SpecTransformer>) -> Seq<SpecEvent> {
    spec_flatten(spec_aggregate(events).map_values(|a: SpecAggregation| spec_transform_agg(reg, a)))
}

/// Rewrite every link in the document by its first matching transformer
/// and return the flattened event sequence.  Links claimed by a built-in
/// resolver need outside work and pass through unchanged here.
pub fn linkify(events: Vec<Event>, replacers: &Vec<Transformer>) -> (r: Vec<Event>)
    ensures
        r.deep_view() == spec_linkify(events.deep_view(), replacers.deep_view()),
{
    let ghost reg = replacers.deep_view();
    let ghost all = spec_aggregate(events.deep_view());
    let ghost mapped = all.map_values(|a: SpecAggregation| spec_transform_agg(reg, a));
    let aggs = aggregate_links(&events);
    let mut r: Vec<Event> = Vec::new();
    proof {
        lemma_deep_view_empty(r);
        assert(spec_flatten(mapped.take(0)) =~= Seq::<SpecEvent>::empty());
    }
    let mut i: usize = 0;
    let n = aggs.len();
    proof {
        assert(mapped.len() == all.len());
    }
    while i < n
        invariant
            i <= n,
            n == aggs@.len(),
            aggs.deep_view() == all,
            mapped == all.map_values(|a: SpecAggregation| spec_transform_agg(reg, a)),
            mapped.len() == all.len(),
            reg == replacers.deep_view(),
            r.deep_view() == spec_flatten(mapped.take(i as int)),
        decreases n - i,
    {
        let a = aggs[i].clone();
        let ghost av = all[i as int];
        let transformed = match a {
            Aggregation::Link(mut l) => {
                process_replacement(&mut l, replacers);
                Aggregation::Link(l)
            },
            other => other,
        };
        proof {
            assert(transformed@ == spec_transform_agg(reg, av));
            assert(mapped[i as int] == spec_transform_agg(reg, av));
        }
        let mut evs = transformed.into_iter();
        let ghost r0 = r;
        let ghost evs0 = evs;
        r.append(&mut evs);
        proof {
            lemma_deep_view_concat(r0, evs0, r);
            assert(mapped.take(i + 1 as int) =~= mapped.take(i as int) + seq![mapped[i as int]]);
            lemma_flatten_concat(mapped.take(i as int), seq![mapped[i as int]]);
            lemma_flatten_one(mapped[i as int]);
        }
        i += 1;
    }
    proof {
        assert(mapped.take(n as int) =~= mapped);
    }
    r
}

/// Round-trip identity: on a document whose links no registered
/// transformer claims — and whose event sequence keeps every link span
/// well formed and closed — the pipeline returns the input unchanged.
pub proof fn lemma_round_trip_identity(events: Seq<SpecEvent>, reg: Seq<SpecTransformer>)
    requires
        spec_run_orderly(SpecAggregator::Empty, events),
        spec_run(SpecAggregator::Empty, events).0 is Empty,
        forall|i: int| 0 <= i < spec_aggregate(events).len() ==> match #[trigger] spec_aggregate(
            events,
        )[i] {
            SpecAggregation::Link(l) => spec_first_match(reg, l.destination) is None,
            _ => true,
        },
    ensures
        spec_linkify(events, reg) == events,
{
    let all = spec_aggregate(events);
    let mapped = all.map_values(|a: SpecAggregation| spec_transform_agg(reg, a));
    assert forall|i: int| 0 <= i < all.len() implies #[trigger] mapped[i] == all[i] by {
        match all[i] {
            SpecAggregation::Link(l) => {
                assert(spec_first_match(reg, l.destination) is None);
                assert(spec_transform_outcome(reg, l) == l);
            },
            _ => {},
        }
    }
    assert(mapped =~= all);
    lemma_aggregate_round_trip(events);
}

} // verus!
