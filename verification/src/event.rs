//! The event model: one unit of parsed document structure.
//!
//! The surrounding tooling parses markdown into a stream of events.  This
//! library only inspects the variants that take part in link aggregation:
//! link open and close markers, text runs and inline code spans.  Every
//! other event is carried through untouched; the `StartOther`, `EndOther`
//! and `Other` variants hold an opaque token with which the caller can
//! recover the original event.

use vstd::prelude::*;

verus! {

/// The form of a hyperlink: how it was written in the source document.
#[derive(Debug, Clone, Copy, PartialEq, Eq, Structural)]
pub enum LinkType {
    /// `[text](destination "title")`
    Inline,
    /// `[text][id]`, with a matching definition
    Reference,
    /// `[text][id]`, resolved through the broken-link callback
    ReferenceUnknown,
    /// `[text][]`, with a matching definition
    Collapsed,
    /// `[text][]`, resolved through the broken-link callback
    CollapsedUnknown,
    /// `[text]`, with a matching definition
    Shortcut,
    /// `[text]`, destination not yet known
    ShortcutUnknown,
    /// `<http://example.com>`
    Autolink,
    /// `<user@example.com>`
    Email,
}

/// Spec-level value of an [`Event`]: strings become character sequences.
pub enum SpecEvent {
    StartLink { link_type: LinkType, destination: Seq<char>, title: Seq<char>, id: Seq<char> },
    EndLink,
    Text(Seq<char>),
    Code(Seq<char>),
    Html(Seq<char>),
    StartOther(usize),
    EndOther(usize),
    Other(usize),
}

/// One unit of parsed document structure.
#[derive(Debug, PartialEq, Eq)]
pub enum Event {
    /// Opening marker of a hyperlink.
    StartLink { link_type: LinkType, destination: String, title: String, id: String },
    /// Closing marker of a hyperlink.
    EndLink,
    /// A run of plain text.
    Text(String),
    /// An inline code span.
    Code(String),
    /// An inline HTML fragment.
    Html(String),
    /// Opening marker of any non-link construct; the token is the caller's.
    StartOther(usize),
    /// Closing marker of any non-link construct; the token is the caller's.
    EndOther(usize),
    /// Any event that plays no part in aggregation; the token is the caller's.
    Other(usize),
}

impl View for Event {
    type V = SpecEvent;

    open spec fn view(&self) -> SpecEvent {
        match self {
            Event::StartLink { link_type, destination, title, id } => SpecEvent::StartLink {
                link_type: *link_type,
                destination: destination@,
                title: title@,
                id: id@,
            },
            Event::EndLink => SpecEvent::EndLink,
            Event::Text(s) => SpecEvent::Text(s@),
            Event::Code(s) => SpecEvent::Code(s@),
            Event::Html(s) => SpecEvent::Html(s@),
            Event::StartOther(k) => SpecEvent::StartOther(*k),
            Event::EndOther(k) => SpecEvent::EndOther(*k),
            Event::Other(k) => SpecEvent::Other(*k),
        }
    }
}

impl DeepView for Event {
    type V = SpecEvent;

    open spec fn deep_view(&self) -> SpecEvent {
        self.view()
    }
}

impl Clone for Event {
    fn clone(&self) -> (r: Self)
        ensures
            r@ == self@,
    {
        match self {
            Event::StartLink { link_type, destination, title, id } => Event::StartLink {
                link_type: *link_type,
                destination: destination.clone(),
                title: title.clone(),
                id: id.clone(),
            },
            Event::EndLink => Event::EndLink,
            Event::Text(s) => Event::Text(s.clone()),
            Event::Code(s) => Event::Code(s.clone()),
            Event::Html(s) => Event::Html(s.clone()),
            Event::StartOther(k) => Event::StartOther(*k),
            Event::EndOther(k) => Event::EndOther(*k),
            Event::Other(k) => Event::Other(*k),
        }
    }
}

/// An event that may stand in a link's visible label: a text run or a
/// code span.
pub open spec fn is_inline_content(e: SpecEvent) -> bool {
    e is Text || e is Code
}

} // verus!
