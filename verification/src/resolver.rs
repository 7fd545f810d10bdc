//! The broken-reference resolver.
//!
//! When the parser meets a reference-style link whose label has no
//! definition anywhere in the document, it asks this resolver for a
//! destination and title.  The resolver offers the raw reference text to
//! each registered transformer in order; the first whose pattern claims
//! it is applied to a throwaway link whose destination is the reference
//! text, and the rewritten destination and title are handed back.  If no
//! transformer claims the text, the reference stays unresolved and the
//! parser renders it as plain bracketed text.

use vstd::prelude::*;
use vstd::string::StringExecFns;

use crate::event::LinkType;
use crate::link::{Link, SpecLink};
use crate::substitution::spec_apply;
use crate::transform::{
    Transformer, SpecTransformer, TransformAction, process_replacement, spec_first_match,
    spec_resolver_input,
};
use crate::deep_view_util::lemma_deep_view_empty;

verus! {

/// The resolver's answer for one reference.
#[derive(Debug)]
pub enum ReferenceResolution {
    /// No transformer claimed the reference text.
    Unresolved,
    /// A substitution claimed it; the synthesised destination and title.
    Resolved { destination: String, title: String },
    /// The documentation-generator resolver claimed it: run the
    /// generator on the carried item name, then finish the link with
    /// [`crate::transform::apply_docs_resolution`].
    NeedDocs { input: String },
    /// The page-title resolver claimed it: fetch the carried URL, then
    /// finish the link with [`crate::transform::apply_page_resolution`].
    NeedPage { input: String },
}

/// The throwaway link a reference is resolved through: the reference
/// text as destination, everything else empty.  It takes the reference
/// form, so the substitution's unknown-shortcut guard does not block it.
pub open spec fn spec_throwaway(reference: Seq<char>) -> SpecLink {
    SpecLink {
        link_type: LinkType::Reference,
        destination: reference,
        title: Seq::empty(),
        text: Seq::empty(),
        id: Seq::empty(),
    }
}

/// Resolve one broken reference against the registry: the first
/// transformer whose pattern claims the raw reference text decides the
/// outcome; none matching leaves the reference unresolved.
pub fn resolve_reference(reference: &str, replacers: &Vec<Transformer>) -> (r: ReferenceResolution)
    ensures
        ({
            let reg = replacers.deep_view();
            let throwaway = spec_throwaway(reference@);
            match spec_first_match(reg, reference@) {
                None => r is Unresolved,
                Some(i) => match reg[i] {
                    SpecTransformer::Substitution(s) => r matches ReferenceResolution::Resolved {
                        destination,
                        title,
                    } && destination@ == spec_apply(s, throwaway).destination && title@
                        == spec_apply(s, throwaway).title,
                    SpecTransformer::DocsRustlang => r matches ReferenceResolution::NeedDocs {
                        input,
                    } && input@ == spec_resolver_input(SpecTransformer::DocsRustlang, reference@),
                    SpecTransformer::Docsrs => r matches ReferenceResolution::NeedPage { input }
                        && input@ == spec_resolver_input(SpecTransformer::Docsrs, reference@),
                },
            }
        }),
{
    let text: Vec<crate::event::Event> = Vec::new();
    proof {
        lemma_deep_view_empty(text);
    }
    let mut link = Link {
        link_type: LinkType::Reference,
        destination: String::from_str(reference),
        title: String::new(),
        text,
        id: String::new(),
    };
    proof {
        assert(link@ == spec_throwaway(reference@));
    }
    let action = process_replacement(&mut link, replacers);
    match action {
        TransformAction::NoMatch => ReferenceResolution::Unresolved,
        TransformAction::Applied => ReferenceResolution::Resolved {
            destination: link.destination,
            title: link.title,
        },
        TransformAction::NeedDocs(input) => ReferenceResolution::NeedDocs { input },
        TransformAction::NeedPage(input) => ReferenceResolution::NeedPage { input },
    }
}

} // verus!
