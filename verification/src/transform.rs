//! The transformer capability and its registry.
//!
//! A transformer claims links by a pattern over the destination and
//! rewrites the link in place.  The registry is an ordered list; a link
//! is offered to each transformer in turn and only the first whose
//! pattern matches is applied — first match wins.
//!
//! Two built-in transformers resolve documentation links by outside
//! work: one runs a documentation generator on a snippet, one fetches a
//! page and reads its title.  Neither call can be made here, so applying
//! them is split: the registry walk extracts what the outside step needs
//! and hands back a request; the caller performs it and feeds the
//! outcome to [`apply_docs_resolution`] or [`apply_page_resolution`],
//! which do the verified rewriting.

use vstd::prelude::*;
use vstd::string::{StringExecFns, StrSliceExecFns};

use crate::event::{Event, SpecEvent};
use crate::link::{Link, SpecLink};
use crate::substitution::{Substitution, SpecSubstitution, spec_apply};
use crate::regex_ops::{regex_valid, regex_match, regex_replacen, re_is_match, re_replacen};

verus! {

/// Spec-level value of a [`Transformer`].
pub enum SpecTransformer {
    Substitution(SpecSubstitution),
    DocsRustlang,
    Docsrs,
}

/// Resolves `rust:Item` links against generated documentation; the
/// generator run happens outside the library.
#[derive(Debug, Clone, Copy)]
pub struct DocsRustlang;

impl DocsRustlang {
    /// A fresh resolver.
    pub fn new() -> (r: Self) {
        DocsRustlang
    }
}

/// Resolves `docsrs:url` links by fetching the page and taking the
/// first word of its title; the fetch happens outside the library.
#[derive(Debug, Clone, Copy)]
pub struct Docsrs;

impl Docsrs {
    /// A fresh resolver.
    pub fn new() -> (r: Self) {
        Docsrs
    }
}

/// One registered transformation rule.
#[derive(Debug)]
pub enum Transformer {
    /// A config-driven regex substitution.
    Substitution(Substitution),
    /// The built-in documentation-generator resolver.
    DocsRustlang(DocsRustlang),
    /// The built-in page-title resolver.
    Docsrs(Docsrs),
}

impl View for Transformer {
    type V = SpecTransformer;

    open spec fn view(&self) -> SpecTransformer {
        match self {
            Transformer::Substitution(s) => SpecTransformer::Substitution(s@),
            Transformer::DocsRustlang(_) => SpecTransformer::DocsRustlang,
            Transformer::Docsrs(_) => SpecTransformer::Docsrs,
        }
    }
}

impl DeepView for Transformer {
    type V = SpecTransformer;

    open spec fn deep_view(&self) -> SpecTransformer {
        self.view()
    }
}

impl Clone for Transformer {
    fn clone(&self) -> (r: Self)
        ensures
            r@ == self@,
    {
        match self {
            Transformer::Substitution(s) => Transformer::Substitution(s.clone()),
            Transformer::DocsRustlang(_) => Transformer::DocsRustlang(DocsRustlang),
            Transformer::Docsrs(_) => Transformer::Docsrs(Docsrs),
        }
    }
}

/// The tag prefix a transformer claims.
pub open spec fn spec_tag(t: SpecTransformer) -> Seq<char> {
    match t {
        SpecTransformer::Substitution(s) => s.tag,
        SpecTransformer::DocsRustlang => "rust:"@,
        SpecTransformer::Docsrs => "docsrs:"@,
    }
}

/// The pattern a transformer matches against a destination.  A
/// substitution uses its full pattern; a built-in resolver takes its tag
/// followed by anything, captured as the group `i`.
pub open spec fn spec_pattern(t: SpecTransformer) -> Seq<char> {
    match t {
        SpecTransformer::Substitution(s) => s.full_pattern(),
        SpecTransformer::DocsRustlang => "rust:(?<i>.+)"@,
        SpecTransformer::Docsrs => "docsrs:(?<i>.+)"@,
    }
}

/// Whether a transformer claims the destination: its pattern compiles
/// and matches somewhere in it.
pub open spec fn spec_claims(t: SpecTransformer, dest: Seq<char>) -> bool {
    regex_valid(spec_pattern(t)) && regex_match(spec_pattern(t), dest)
}

/// What a built-in resolver needs from the destination: the part after
/// the tag, extracted by replacing the pattern with its `i` group.
pub open spec fn spec_resolver_input(t: SpecTransformer, dest: Seq<char>) -> Seq<char> {
    if regex_valid(spec_pattern(t)) {
        regex_replacen(spec_pattern(t), dest, 1, "$i"@)
    } else {
        dest
    }
}

impl Transformer {
    /// The tag prefix this transformer claims.
    pub fn tag(&self) -> (r: String)
        ensures
            r@ == spec_tag(self@),
    {
        match self {
            Transformer::Substitution(s) => s.tag.clone(),
            Transformer::DocsRustlang(_) => String::from_str("rust:"),
            Transformer::Docsrs(_) => String::from_str("docsrs:"),
        }
    }

    /// The pattern matched against a link's destination.
    pub fn pattern(&self) -> (r: String)
        ensures
            r@ == spec_pattern(self@),
    {
        match self {
            Transformer::Substitution(s) => s.pattern(),
            Transformer::DocsRustlang(_) => String::from_str("rust:(?<i>.+)"),
            Transformer::Docsrs(_) => String::from_str("docsrs:(?<i>.+)"),
        }
    }

    /// Whether this transformer claims the destination.
    pub fn claims(&self, dest: &str) -> (r: bool)
        ensures
            r == spec_claims(self@, dest@),
    {
        let p = self.pattern();
        re_is_match(p.as_str(), dest)
    }

    /// What the outside resolution step needs from this destination.
    pub fn resolver_input(&self, dest: &str) -> (r: String)
        ensures
            r@ == spec_resolver_input(self@, dest@),
    {
        let p = self.pattern();
        re_replacen(p.as_str(), dest, 1, "$i")
    }
}

/// The ordered transformer configuration read from a config file: the
/// regex substitutions, in file order.
#[derive(Debug)]
pub struct Transformers {
    /// The configured substitutions.
    pub regexes: Vec<Substitution>,
}

impl Transformers {
    /// An example configuration, used to generate a template file.
    pub fn example() -> (r: Self)
        ensures
            r.regexes@.len() == 1,
    {
        let mut regexes: Vec<Substitution> = Vec::new();
        regexes.push(Substitution::example());
        Transformers { regexes }
    }
}

/// The registry built from a configuration: the configured substitutions
/// first, in order, then the built-in resolvers.  First match wins, so a
/// configured substitution can shadow a built-in sharing its tag.
pub fn registry(config: Transformers) -> (r: Vec<Transformer>)
    ensures
        r.deep_view().len() == config.regexes.deep_view().len() + 2,
        forall|i: int| 0 <= i < config.regexes.deep_view().len() ==> r.deep_view()[i]
            == SpecTransformer::Substitution(config.regexes.deep_view()[i]),
        r.deep_view()[config.regexes.deep_view().len() as int] == SpecTransformer::DocsRustlang,
        r.deep_view()[config.regexes.deep_view().len() as int + 1] == SpecTransformer::Docsrs,
{
    let ghost subs = config.regexes.deep_view();
    let mut r: Vec<Transformer> = Vec::new();
    let mut regexes = config.regexes;
    let n = regexes.len();
    let mut i: usize = 0;
    while i < n
        invariant
            i <= n,
            n == regexes.len(),
            regexes.deep_view() == subs,
            r.deep_view().len() == i,
            forall|k: int| 0 <= k < i ==> #[trigger] r.deep_view()[k]
                == SpecTransformer::Substitution(subs[k]),
        decreases n - i,
    {
        let ghost r0 = r;
        let t = Transformer::Substitution(regexes[i].clone());
        let ghost tv = t;
        r.push(t);
        proof {
            crate::deep_view_util::lemma_deep_view_push(r0, r, tv);
        }
        i += 1;
    }
    let ghost r1 = r;
    r.push(Transformer::DocsRustlang(DocsRustlang));
    proof {
        crate::deep_view_util::lemma_deep_view_push(r1, r, Transformer::DocsRustlang(DocsRustlang));
    }
    let ghost r2 = r;
    r.push(Transformer::Docsrs(Docsrs));
    proof {
        crate::deep_view_util::lemma_deep_view_push(r2, r, Transformer::Docsrs(Docsrs));
    }
    r
}

/// The first registered transformer claiming the destination, if any.
pub open spec fn spec_first_match(reg: Seq<SpecTransformer>, dest: Seq<char>) -> Option<int>
    decreases reg.len(),
{
    if reg.len() == 0 {
        None
    } else if spec_claims(reg[0], dest) {
        Some(0)
    } else {
        match spec_first_match(reg.drop_first(), dest) {
            Some(i) => Some(i + 1),
            None => None,
        }
    }
}

/// First-match-wins: the index the registry walk settles on is the
/// earliest whose pattern claims the destination — every earlier entry
/// does not claim it, so a later transformer that also matches never
/// runs.
pub proof fn lemma_first_match_wins(reg: Seq<SpecTransformer>, dest: Seq<char>)
    ensures
        match spec_first_match(reg, dest) {
            Some(i) => 0 <= i < reg.len() && spec_claims(reg[i], dest) && forall|j: int|
                0 <= j < i ==> !spec_claims(#[trigger] reg[j], dest),
            None => forall|j: int| 0 <= j < reg.len() ==> !spec_claims(#[trigger] reg[j], dest),
        },
    decreases reg.len(),
{
    if reg.len() == 0 {
    } else if spec_claims(reg[0], dest) {
    } else {
        lemma_first_match_wins(reg.drop_first(), dest);
        assert(forall|j: int| 0 <= j < reg.drop_first().len() ==> #[trigger] reg.drop_first()[j]
            == reg[j + 1]);
        match spec_first_match(reg.drop_first(), dest) {
            Some(i2) => {
                assert(reg[i2 + 1] == reg.drop_first()[i2]);
                assert forall|j: int| 0 <= j < i2 + 1 implies !spec_claims(
                    #[trigger] reg[j],
                    dest,
                ) by {
                    if j > 0 {
                        assert(reg[j] == reg.drop_first()[j - 1]);
                    }
                }
            },
            None => {
                assert forall|j: int| 0 <= j < reg.len() implies !spec_claims(
                    #[trigger] reg[j],
                    dest,
                ) by {
                    if j > 0 {
                        assert(reg[j] == reg.drop_first()[j - 1]);
                    }
                }
            },
        }
    }
}

/// What the registry walk asks of its caller.
#[derive(Debug)]
pub enum TransformAction {
    /// No transformer claimed the link; it passed through unchanged.
    NoMatch,
    /// A substitution claimed the link and was applied in place.
    Applied,
    /// The documentation-generator resolver claimed the link: run the
    /// generator on the carried item name, then call
    /// [`apply_docs_resolution`].
    NeedDocs(String),
    /// The page-title resolver claimed the link: fetch the carried URL,
    /// then call [`apply_page_resolution`].
    NeedPage(String),
}

/// What [`process_replacement`] leaves in the link and reports, for a
/// given registry and starting link.
pub open spec fn spec_transform_outcome(reg: Seq<SpecTransformer>, l: SpecLink) -> SpecLink {
    match spec_first_match(reg, l.destination) {
        Some(i) => match reg[i] {
            SpecTransformer::Substitution(s) => spec_apply(s, l),
            _ => l,
        },
        None => l,
    }
}

/// Offer the link to each registered transformer in order and apply the
/// first whose pattern claims its destination; later matches never run.
/// A substitution is applied in place; a built-in resolver cannot run
/// here, so the link is left untouched and the needed outside step is
/// reported in the returned action.
pub fn process_replacement(link: &mut Link, replacers: &Vec<Transformer>) -> (r: TransformAction)
    ensures
        final(link)@ == spec_transform_outcome(replacers.deep_view(), old(link)@),
        ({
            let reg = replacers.deep_view();
            let dest = old(link)@.destination;
            match spec_first_match(reg, dest) {
                None => r is NoMatch && final(link)@ == old(link)@,
                Some(i) => match reg[i] {
                    SpecTransformer::Substitution(s) => r is Applied,
                    SpecTransformer::DocsRustlang => r matches TransformAction::NeedDocs(input)
                        && input@ == spec_resolver_input(SpecTransformer::DocsRustlang, dest)
                        && final(link)@ == old(link)@,
                    SpecTransformer::Docsrs => r matches TransformAction::NeedPage(input)
                        && input@ == spec_resolver_input(SpecTransformer::Docsrs, dest)
                        && final(link)@ == old(link)@,
                },
            }
        }),
{
    let ghost reg = replacers.deep_view();
    let ghost dest0 = link.destination@;
    let dest = link.destination.clone();
    let n = replacers.len();
    let mut i: usize = 0;
    while i < n
        invariant
            i <= n,
            n == replacers@.len(),
            reg == replacers.deep_view(),
            dest@ == dest0,
            forall|j: int| 0 <= j < i ==> !spec_claims(#[trigger] reg[j], dest0),
            link@ == old(link)@,
            old(link)@.destination == dest0,
        decreases n - i,
    {
        proof {
            lemma_first_match_wins(reg, dest0);
        }
        if replacers[i].claims(dest.as_str()) {
            proof {
                assert(spec_first_match(reg, dest0) == Some(i as int)) by {
                    lemma_first_match_prefix(reg, dest0, i as int);
                }
            }
            match &replacers[i] {
                Transformer::Substitution(s) => {
                    s.apply(link);
                    return TransformAction::Applied;
                },
                Transformer::DocsRustlang(_) => {
                    let input = replacers[i].resolver_input(dest.as_str());
                    return TransformAction::NeedDocs(input);
                },
                Transformer::Docsrs(_) => {
                    let input = replacers[i].resolver_input(dest.as_str());
                    return TransformAction::NeedPage(input);
                },
            }
        }
        i += 1;
    }
    proof {
        lemma_first_match_wins(reg, dest0);
        if spec_first_match(reg, dest0) is Some {
            let k = spec_first_match(reg, dest0)->0;
            assert(!spec_claims(reg[k], dest0));
        }
    }
    TransformAction::NoMatch
}

/// If every entry before `i` does not claim the destination and entry
/// `i` does, the first match is exactly `i`.
proof fn lemma_first_match_prefix(reg: Seq<SpecTransformer>, dest: Seq<char>, i: int)
    requires
        0 <= i < reg.len(),
        spec_claims(reg[i], dest),
        forall|j: int| 0 <= j < i ==> !spec_claims(#[trigger] reg[j], dest),
    ensures
        spec_first_match(reg, dest) == Some(i),
    decreases i,
{
    if i == 0 {
    } else {
        assert(!spec_claims(reg[0], dest));
        assert(forall|j: int| 0 <= j < i - 1 ==> reg.drop_first()[j] == #[trigger] reg[j + 1]);
        lemma_first_match_prefix(reg.drop_first(), dest, i - 1);
    }
}

/// The rewrite after the documentation generator resolved an item: the
/// destination becomes the resolved URL, an empty title defaults to the
/// URL, and an empty label becomes the item name as a code span.
pub open spec fn spec_docs_resolution(l: SpecLink, url: Seq<char>, snippet: Seq<char>) -> SpecLink {
    SpecLink {
        link_type: l.link_type,
        destination: url,
        title: if l.title.len() == 0 {
            url
        } else {
            l.title
        },
        text: if l.text.len() == 0 {
            seq![SpecEvent::Code(snippet)]
        } else {
            l.text
        },
        id: l.id,
    }
}

/// Rewrite a link with what the documentation generator resolved.
pub fn apply_docs_resolution(link: &mut Link, url: String, snippet: String)
    ensures
        final(link)@ == spec_docs_resolution(old(link)@, url@, snippet@),
{
    if link.text.len() == 0 {
        let mut text: Vec<Event> = Vec::new();
        let ev = Event::Code(snippet);
        let ghost spec_ev = ev@;
        text.push(ev);
        proof {
            assert(text.deep_view() =~= seq![spec_ev]);
        }
        link.text = text;
    }
    if link.title.as_str().is_empty() {
        link.title = url.clone();
    }
    link.destination = url;
}

/// The rewrite after the page fetch resolved a title: the destination
/// becomes the fetched URL, an empty title defaults to the URL, and the
/// label becomes the title word — here unconditionally, since the word
/// is what the fetch was for.
pub open spec fn spec_page_resolution(l: SpecLink, url: Seq<char>, name: Seq<char>) -> SpecLink {
    SpecLink {
        link_type: l.link_type,
        destination: url,
        title: if l.title.len() == 0 {
            url
        } else {
            l.title
        },
        text: seq![SpecEvent::Text(name)],
        id: l.id,
    }
}

/// Rewrite a link with the title word a page fetch found.
pub fn apply_page_resolution(link: &mut Link, url: String, name: String)
    ensures
        final(link)@ == spec_page_resolution(old(link)@, url@, name@),
{
    let mut text: Vec<Event> = Vec::new();
    let ev = Event::Text(name);
    let ghost spec_ev = ev@;
    text.push(ev);
    proof {
        assert(text.deep_view() =~= seq![spec_ev]);
    }
    link.text = text;
    if link.title.as_str().is_empty() {
        link.title = url.clone();
    }
    link.destination = url;
}

/// A transformer only defaults an empty title: a link that arrives with
/// a non-empty explicit title keeps it, through a substitution and
/// through either resolver rewrite.
pub proof fn lemma_title_never_overwritten(
    s: SpecSubstitution,
    l: SpecLink,
    url: Seq<char>,
    name: Seq<char>,
)
    requires
        l.title.len() > 0,
    ensures
        spec_apply(s, l).title == l.title,
        spec_docs_resolution(l, url, name).title == l.title,
        spec_page_resolution(l, url, name).title == l.title,
{
}

} // verus!
