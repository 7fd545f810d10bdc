//! The link entity: one hyperlink folded into a single value.

use vstd::prelude::*;

use crate::event::{Event, SpecEvent, LinkType, is_inline_content};

verus! {

/// Spec-level value of a [`Link`].
pub struct SpecLink {
    pub link_type: LinkType,
    pub destination: Seq<char>,
    pub title: Seq<char>,
    pub text: Seq<SpecEvent>,
    pub id: Seq<char>,
}

/// A hyperlink as one complete data structure, suitable to run a
/// transformer on, instead of separate open, content and close events.
#[derive(Debug)]
pub struct Link {
    pub link_type: LinkType,
    pub destination: String,
    pub title: String,
    /// The visible label: the inline events between the open and close
    /// markers, order preserved.  Empty for an empty-label link.
    pub text: Vec<Event>,
    /// The reference label; empty for inline links.
    pub id: String,
}

impl View for Link {
    type V = SpecLink;

    open spec fn view(&self) -> SpecLink {
        SpecLink {
            link_type: self.link_type,
            destination: self.destination@,
            title: self.title@,
            text: self.text.deep_view(),
            id: self.id@,
        }
    }
}

impl DeepView for Link {
    type V = SpecLink;

    open spec fn deep_view(&self) -> SpecLink {
        self.view()
    }
}

impl Clone for Link {
    fn clone(&self) -> (r: Self)
        ensures
            r@ == self@,
    {
        let text = clone_events(&self.text);
        Link {
            link_type: self.link_type,
            destination: self.destination.clone(),
            title: self.title.clone(),
            text,
            id: self.id.clone(),
        }
    }
}

/// Clone a vector of events, value for value.
pub fn clone_events(events: &Vec<Event>) -> (r: Vec<Event>)
    ensures
        r.deep_view() == events.deep_view(),
{
    let mut r: Vec<Event> = Vec::new();
    let mut i: usize = 0;
    while i < events.len()
        invariant
            i <= events.len(),
            r.len() == i,
            forall|k: int| 0 <= k < i ==> #[trigger] r.deep_view()[k] == events.deep_view()[k],
        decreases events.len() - i,
    {
        let ghost r0 = r;
        r.push(events[i].clone());
        proof {
            assert(forall|k: int| 0 <= k < i ==> r@[k] == r0@[k]);
            assert(forall|k: int| 0 <= k < i ==> #[trigger] r.deep_view()[k] == r0.deep_view()[k]);
            assert(r@[i as int]@ == events@[i as int]@);
            assert(r.deep_view()[i as int] == events.deep_view()[i as int]);
        }
        i += 1;
    }
    proof {
        assert(r.deep_view() =~= events.deep_view());
    }
    r
}

/// The event-sequence encoding of a link: its open marker, its label
/// events, then its close marker.
pub open spec fn spec_link_events(l: SpecLink) -> Seq<SpecEvent> {
    seq![SpecEvent::StartLink {
        link_type: l.link_type,
        destination: l.destination,
        title: l.title,
        id: l.id,
    }] + l.text + seq![SpecEvent::EndLink]
}

/// A link's label holds inline content only: text runs and code spans.
pub open spec fn spec_link_wf(l: SpecLink) -> bool {
    forall|i: int| 0 <= i < l.text.len() ==> is_inline_content(#[trigger] l.text[i])
}

impl Link {
    /// Decompose the link back into its event-sequence encoding.
    pub fn into_iter(self) -> (r: Vec<Event>)
        ensures
            r.deep_view() == spec_link_events(self@),
    {
        let Link { link_type, destination, title, text, id } = self;
        let ghost spec_text = text.deep_view();
        let start = Event::StartLink { link_type, destination, title, id };
        let ghost spec_start = start@;
        let mut r: Vec<Event> = Vec::new();
        r.push(start);
        let mut i: usize = 0;
        while i < text.len()
            invariant
                i <= text.len(),
                r.len() == i + 1,
                spec_text == text.deep_view(),
                r.deep_view()[0] == spec_start,
                forall|k: int| 1 <= k < i + 1 ==> #[trigger] r.deep_view()[k] == spec_text[k - 1],
            decreases text.len() - i,
        {
            let ghost r0 = r;
            r.push(text[i].clone());
            proof {
                assert(forall|k: int| 0 <= k < i + 1 ==> r@[k] == r0@[k]);
                assert(forall|k: int| 0 <= k < i + 1 ==> #[trigger] r.deep_view()[k] == r0.deep_view()[k]);
                assert(r@[i + 1 as int]@ == text@[i as int]@);
                assert(r.deep_view()[i + 1 as int] == spec_text[i as int]);
                assert(forall|k: int| 1 <= k < i + 2 ==> #[trigger] r.deep_view()[k] == spec_text[k - 1]);
            }
            i += 1;
        }
        let ghost r1 = r;
        r.push(Event::EndLink);
        proof {
            assert(forall|k: int| 0 <= k < r1@.len() ==> r@[k] == r1@[k]);
            assert(forall|k: int| 0 <= k < r1@.len() ==> #[trigger] r.deep_view()[k] == r1.deep_view()[k]);
            assert(r.deep_view()[r1@.len() as int] == SpecEvent::EndLink);
            assert(r.deep_view().len() == spec_text.len() + 2);
            assert(r.deep_view()[0] == spec_start);
            assert(forall|k: int| 1 <= k < spec_text.len() + 1 ==> #[trigger] r.deep_view()[k] == spec_text[k - 1]);
            assert(r.deep_view() =~= seq![spec_start] + spec_text + seq![SpecEvent::EndLink]);
        }
        r
    }
}

} // verus!
