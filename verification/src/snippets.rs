//! Extracted source snippets, keyed by identifier per file.
//!
//! A snippet is a run of lines cut out of a source file between comment
//! markers.  The collection keeps one ordered list of `(identifier,
//! snippet)` entries per file, identifiers unique within a file, files
//! unique within the collection — the shape of a map, held as ordered
//! entry lists so that lookups are plain verified walks.

use vstd::prelude::*;

use crate::deep_view_util::lemma_deep_view_push;
use crate::regex_ops::{regex_group1_all, re_group1_matches};
use crate::text_util::{split_lines, spec_split_lines, join_with, spec_join, str_eq};

verus! {

/// Spec-level value of a [`Snippet`].
pub struct SpecSnippet {
    pub content: Seq<char>,
    pub file: Seq<char>,
    pub line: usize,
    pub col: usize,
}

/// One extracted snippet: its text and where it came from.
#[derive(Debug)]
pub struct Snippet {
    /// The lines between the start and end markers.
    pub content: String,
    /// The path of the file the snippet was cut from.
    pub file: String,
    /// The line of the start marker.
    pub line: usize,
    /// The column recorded for the snippet.
    pub col: usize,
}

impl View for Snippet {
    type V = SpecSnippet;

    open spec fn view(&self) -> SpecSnippet {
        SpecSnippet { content: self.content@, file: self.file@, line: self.line, col: self.col }
    }
}

impl DeepView for Snippet {
    type V = SpecSnippet;

    open spec fn deep_view(&self) -> SpecSnippet {
        self.view()
    }
}

impl Clone for Snippet {
    fn clone(&self) -> (r: Self)
        ensures
            r@ == self@,
    {
        Snippet {
            content: self.content.clone(),
            file: self.file.clone(),
            line: self.line,
            col: self.col,
        }
    }
}

/// The `(identifier, snippet)` entries of one file.
pub type SnippetEntries = Vec<(String, Snippet)>;

/// All snippets extracted from a directory tree: per file, in order.
#[derive(Debug)]
pub struct Snippets {
    /// One `(file path, entries)` pair per scanned file that had any.
    pub snippets: Vec<(String, SnippetEntries)>,
}

/// The first snippet stored under the identifier, if any.
pub open spec fn spec_lookup(entries: Seq<(Seq<char>, SpecSnippet)>, id: Seq<char>) -> Option<
    SpecSnippet,
>
    decreases entries.len(),
{
    if entries.len() == 0 {
        None
    } else if entries[0].0 == id {
        Some(entries[0].1)
    } else {
        spec_lookup(entries.drop_first(), id)
    }
}

/// Every file's snippet under the identifier, in file order.
pub open spec fn spec_snippets_for_id(
    files: Seq<(Seq<char>, Seq<(Seq<char>, SpecSnippet)>)>,
    id: Seq<char>,
) -> Seq<SpecSnippet>
    decreases files.len(),
{
    if files.len() == 0 {
        Seq::empty()
    } else {
        let rest = spec_snippets_for_id(files.drop_first(), id);
        match spec_lookup(files[0].1, id) {
            Some(s) => seq![s] + rest,
            None => rest,
        }
    }
}

/// Extending a file list on the right appends that file's lookup.
proof fn lemma_snippets_for_id_snoc(
    files: Seq<(Seq<char>, Seq<(Seq<char>, SpecSnippet)>)>,
    f: (Seq<char>, Seq<(Seq<char>, SpecSnippet)>),
    id: Seq<char>,
)
    ensures
        spec_snippets_for_id(files.push(f), id) == spec_snippets_for_id(files, id)
            + match spec_lookup(f.1, id) {
            Some(s) => seq![s],
            None => Seq::<SpecSnippet>::empty(),
        },
    decreases files.len(),
{
    reveal_with_fuel(spec_snippets_for_id, 2);
    let whole = files.push(f);
    if files.len() == 0 {
        assert(whole[0] == f);
        assert(whole.drop_first() =~= Seq::<(Seq<char>, Seq<(Seq<char>, SpecSnippet)>)>::empty());
        assert(spec_snippets_for_id(whole, id) =~= spec_snippets_for_id(files, id) + match
            spec_lookup(f.1, id) {
            Some(s) => seq![s],
            None => Seq::<SpecSnippet>::empty(),
        });
    } else {
        assert(whole[0] == files[0]);
        assert(whole.drop_first() =~= files.drop_first().push(f));
        lemma_snippets_for_id_snoc(files.drop_first(), f, id);
        assert(spec_snippets_for_id(whole, id) =~= spec_snippets_for_id(files, id) + match
            spec_lookup(f.1, id) {
            Some(s) => seq![s],
            None => Seq::<SpecSnippet>::empty(),
        });
    }
}

/// Look an identifier up in one file's entries: the first match.
fn lookup_entry(entries: &SnippetEntries, id: &str) -> (r: Option<Snippet>)
    ensures
        r.deep_view() == spec_lookup(entries.deep_view(), id@),
    decreases entries@.len(),
{
    let ghost all = entries.deep_view();
    proof {
        assert(all.skip(0) =~= all);
    }
    let mut i: usize = 0;
    let n = entries.len();
    while i < n
        invariant
            i <= n,
            n == entries@.len(),
            all == entries.deep_view(),
            spec_lookup(all, id@) == spec_lookup(all.skip(i as int), id@),
            forall|k: int| 0 <= k < i ==> #[trigger] all[k].0 != id@,
        decreases n - i,
    {
        proof {
            assert(all.skip(i as int)[0] == all[i as int]);
            assert(all.skip(i as int).drop_first() =~= all.skip(i + 1 as int));
        }
        if crate::text_util::str_eq(entries[i].0.as_str(), id) {
            let found = entries[i].1.clone();
            return Some(found);
        }
        i += 1;
    }
    proof {
        assert(all.skip(n as int) =~= Seq::<(Seq<char>, SpecSnippet)>::empty());
    }
    None
}

impl Snippets {
    /// An empty collection.
    pub fn new() -> (r: Self)
        ensures
            r.snippets.deep_view() == Seq::<(Seq<char>, Seq<(Seq<char>, SpecSnippet)>)>::empty(),
    {
        let snippets: Vec<(String, SnippetEntries)> = Vec::new();
        proof {
            crate::deep_view_util::lemma_deep_view_empty(snippets);
        }
        Snippets { snippets }
    }

    /// Every snippet stored under the identifier, one per file that has
    /// it, in file order.
    pub fn snippets_for_id(&self, id: &str) -> (r: Vec<Snippet>)
        ensures
            r.deep_view() == spec_snippets_for_id(self.snippets.deep_view(), id@),
    {
        let ghost files = self.snippets.deep_view();
        let mut results: Vec<Snippet> = Vec::new();
        proof {
            crate::deep_view_util::lemma_deep_view_empty(results);
            assert(files.take(0) =~= Seq::<(Seq<char>, Seq<(Seq<char>, SpecSnippet)>)>::empty());
        }
        let mut i: usize = 0;
        let n = self.snippets.len();
        while i < n
            invariant
                i <= n,
                n == self.snippets@.len(),
                files == self.snippets.deep_view(),
                results.deep_view() == spec_snippets_for_id(files.take(i as int), id@),
            decreases n - i,
        {
            let found = lookup_entry(&self.snippets[i].1, id);
            proof {
                assert(files[i as int] == self.snippets@[i as int].deep_view());
                assert(files.take(i + 1 as int) =~= files.take(i as int).push(files[i as int]));
                lemma_snippets_for_id_snoc(files.take(i as int), files[i as int], id@);
            }
            match found {
                Some(s) => {
                    let ghost r0 = results;
                    let ghost sv = s;
                    results.push(s);
                    proof {
                        lemma_deep_view_push(r0, results, sv);
                        assert(results.deep_view() =~= spec_snippets_for_id(
                            files.take(i + 1 as int),
                            id@,
                        ));
                    }
                },
                None => {
                    proof {
                        assert(results.deep_view() =~= spec_snippets_for_id(
                            files.take(i + 1 as int),
                            id@,
                        ));
                    }
                },
            }
            i += 1;
        }
        proof {
            assert(files.take(n as int) =~= files);
        }
        results
    }
}

/// The pattern of a snippet start marker; its first group is the
/// identifier.
pub open spec fn spec_start_marker_pattern() -> Seq<char> {
    "[//|#] marker-start (\\w+)"@
}

/// The pattern of a snippet end marker; its first group is the
/// identifier.
pub open spec fn spec_end_marker_pattern() -> Seq<char> {
    "[//|#] marker-end (\\w+)"@
}

/// One found marker: its identifier, line and column.
pub type SpecMarker = (Seq<char>, usize, usize);

/// Each line's marker matches tagged with that line's number.
pub open spec fn spec_tag_line(ms: Seq<(Seq<char>, usize)>, line: usize) -> Seq<SpecMarker> {
    ms.map_values(|m: (Seq<char>, usize)| (m.0, line, m.1))
}

/// All markers of a document, scanning the lines from `base` in order.
pub open spec fn spec_collect_markers(
    lines: Seq<Seq<char>>,
    pattern: Seq<char>,
    base: usize,
) -> Seq<SpecMarker>
    decreases lines.len(),
{
    if lines.len() == 0 {
        Seq::empty()
    } else {
        spec_tag_line(regex_group1_all(pattern, lines[0]), base) + spec_collect_markers(
            lines.drop_first(),
            pattern,
            ((base + 1) as usize),
        )
    }
}

/// Scan every line for markers of the given pattern.  The pattern is
/// fixed and valid; if the regex boundary refused it no markers would
/// be found at all, and the result would simply be empty.
fn collect_markers(lines: &Vec<String>, pattern: &str) -> (r: Vec<(String, usize, usize)>)
    requires
        lines@.len() < usize::MAX,
    ensures
        crate::regex_ops::regex_valid(pattern@) ==> r.deep_view() == spec_collect_markers(
            lines.deep_view(),
            pattern@,
            0,
        ),
{
    let ghost all = lines.deep_view();
    let ghost valid = crate::regex_ops::regex_valid(pattern@);
    let mut r: Vec<(String, usize, usize)> = Vec::new();
    proof {
        crate::deep_view_util::lemma_deep_view_empty(r);
        assert(all.skip(0) =~= all);
    }
    let n = lines.len();
    let mut i: usize = 0;
    while i < n
        invariant
            i <= n,
            n == lines@.len(),
            n < usize::MAX,
            all == lines.deep_view(),
            valid == crate::regex_ops::regex_valid(pattern@),
            valid ==> spec_collect_markers(all, pattern@, 0) == r.deep_view()
                + spec_collect_markers(all.skip(i as int), pattern@, i),
        decreases n - i,
    {
        proof {
            assert(all.skip(i as int)[0] == all[i as int]);
            assert(all.skip(i as int).drop_first() =~= all.skip(i as int + 1));
        }
        let found = re_group1_matches(pattern, lines[i].as_str());
        let ghost found_spec = found.deep_view();
        let ghost r_before = r.deep_view();
        let m = found.len();
        let mut k: usize = 0;
        while k < m
            invariant
                k <= m,
                m == found@.len(),
                i < n,
                found_spec == found.deep_view(),
                r.deep_view() == r_before + spec_tag_line(found_spec, i).take(k as int),
            decreases m - k,
        {
            let ghost r0 = r;
            let id = found[k].0.clone();
            let col = found[k].1;
            let entry = (id, i, col);
            let ghost entryv = entry;
            r.push(entry);
            proof {
                lemma_deep_view_push(r0, r, entryv);
                assert(entryv.deep_view() == spec_tag_line(found_spec, i)[k as int]);
                assert(spec_tag_line(found_spec, i).take(k + 1 as int) =~= spec_tag_line(
                    found_spec,
                    i,
                ).take(k as int).push(spec_tag_line(found_spec, i)[k as int]));
                assert(r.deep_view() =~= r_before + spec_tag_line(found_spec, i).take(
                    k + 1 as int,
                ));
            }
            k += 1;
        }
        proof {
            assert(spec_tag_line(found_spec, i).take(m as int) =~= spec_tag_line(found_spec, i));
            if valid {
                assert(found_spec == regex_group1_all(pattern@, all[i as int]));
                assert(spec_collect_markers(all.skip(i as int), pattern@, i) == spec_tag_line(
                    found_spec,
                    i,
                ) + spec_collect_markers(all.skip(i as int + 1), pattern@, ((i + 1) as usize)));
                assert(r_before + (spec_tag_line(found_spec, i) + spec_collect_markers(
                    all.skip(i as int + 1),
                    pattern@,
                    ((i + 1) as usize),
                )) =~= (r_before + spec_tag_line(found_spec, i)) + spec_collect_markers(
                    all.skip(i as int + 1),
                    pattern@,
                    ((i + 1) as usize),
                ));
            }
        }
        i += 1;
    }
    proof {
        if valid {
            assert(all.skip(n as int) =~= Seq::<Seq<char>>::empty());
            assert(r.deep_view() + spec_collect_markers(
                all.skip(n as int),
                pattern@,
                n,
            ) =~= r.deep_view());
        }
    }
    r
}

/// The positions recorded for one identifier, in scan order.
pub open spec fn spec_positions_for(flat: Seq<SpecMarker>, id: Seq<char>) -> Seq<(usize, usize)>
    decreases flat.len(),
{
    if flat.len() == 0 {
        Seq::empty()
    } else if flat[0].0 == id {
        seq![(flat[0].1, flat[0].2)] + spec_positions_for(flat.drop_first(), id)
    } else {
        spec_positions_for(flat.drop_first(), id)
    }
}

/// Collect one identifier's positions from the flat marker list.
fn positions_for(flat: &Vec<(String, usize, usize)>, id: &str) -> (r: Vec<(usize, usize)>)
    ensures
        r@ == spec_positions_for(flat.deep_view(), id@),
{
    let ghost all = flat.deep_view();
    let mut r: Vec<(usize, usize)> = Vec::new();
    proof {
        assert(all.skip(0) =~= all);
        assert(spec_positions_for(all, id@) =~= r@ + spec_positions_for(all.skip(0), id@));
    }
    let n = flat.len();
    let mut i: usize = 0;
    while i < n
        invariant
            i <= n,
            n == flat@.len(),
            all == flat.deep_view(),
            spec_positions_for(all, id@) == r@ + spec_positions_for(all.skip(i as int), id@),
        decreases n - i,
    {
        proof {
            assert(all.skip(i as int)[0] == all[i as int]);
            assert(all.skip(i as int).drop_first() =~= all.skip(i as int + 1));
        }
        let ghost r0 = r@;
        if str_eq(flat[i].0.as_str(), id) {
            r.push((flat[i].1, flat[i].2));
            proof {
                assert(r0 + (seq![(all[i as int].1, all[i as int].2)] + spec_positions_for(
                    all.skip(i as int + 1),
                    id@,
                )) =~= r@ + spec_positions_for(all.skip(i as int + 1), id@));
            }
        }
        i += 1;
    }
    proof {
        assert(all.skip(n as int) =~= Seq::<SpecMarker>::empty());
        assert(r@ + spec_positions_for(all.skip(n as int), id@) =~= r@);
    }
    r
}

/// The entry list with the identifier bound to the snippet: the first
/// entry under the identifier is replaced, or the pair is appended.
pub open spec fn spec_assoc_put(
    entries: Seq<(Seq<char>, SpecSnippet)>,
    id: Seq<char>,
    snip: SpecSnippet,
) -> Seq<(Seq<char>, SpecSnippet)>
    decreases entries.len(),
{
    if entries.len() == 0 {
        seq![(id, snip)]
    } else if entries[0].0 == id {
        seq![(id, snip)] + entries.drop_first()
    } else {
        seq![entries[0]] + spec_assoc_put(entries.drop_first(), id, snip)
    }
}

/// Bind the identifier to the snippet in the entry list.
fn assoc_put(entries: &mut SnippetEntries, id: String, snip: Snippet)
    ensures
        final(entries).deep_view() == spec_assoc_put(old(entries).deep_view(), id@, snip@),
{
    let ghost all = old(entries).deep_view();
    let n = entries.len();
    let mut i: usize = 0;
    proof {
        assert(all.skip(0) =~= all);
        assert(all.take(0) =~= Seq::<(Seq<char>, SpecSnippet)>::empty());
        assert(all.take(0) + spec_assoc_put(all.skip(0), id@, snip@) =~= spec_assoc_put(
            all,
            id@,
            snip@,
        ));
    }
    while i < n
        invariant
            i <= n,
            n == entries@.len(),
            entries.deep_view() == all,
            all == old(entries).deep_view(),
            forall|k: int| 0 <= k < i ==> #[trigger] all[k].0 != id@,
            spec_assoc_put(all, id@, snip@) == all.take(i as int) + spec_assoc_put(
                all.skip(i as int),
                id@,
                snip@,
            ),
        decreases n - i,
    {
        proof {
            assert(all.skip(i as int)[0] == all[i as int]);
            assert(all.skip(i as int).drop_first() =~= all.skip(i as int + 1));
        }
        if str_eq(entries[i].0.as_str(), id.as_str()) {
            let mut rebuilt: Vec<(String, Snippet)> = Vec::new();
            let mut j: usize = 0;
            while j < n
                invariant
                    j <= n,
                    i < n,
                    n == entries@.len(),
                    entries.deep_view() == all,
                    rebuilt.deep_view().len() == j,
                    forall|k: int| 0 <= k < j && k != i ==> #[trigger] rebuilt.deep_view()[k]
                        == all[k],
                    forall|k: int| 0 <= k < j && k == i ==> #[trigger] rebuilt.deep_view()[k]
                        == (id@, snip@),
                decreases n - j,
            {
                let ghost rb0 = rebuilt;
                if j == i {
                    let entry = (id.clone(), snip.clone());
                    let ghost entryv = entry;
                    rebuilt.push(entry);
                    proof {
                        lemma_deep_view_push(rb0, rebuilt, entryv);
                    }
                } else {
                    let entry = (entries[j].0.clone(), entries[j].1.clone());
                    let ghost entryv = entry;
                    rebuilt.push(entry);
                    proof {
                        lemma_deep_view_push(rb0, rebuilt, entryv);
                    }
                }
                j += 1;
            }
            proof {
                assert(spec_assoc_put(all.skip(i as int), id@, snip@) =~= seq![(id@, snip@)]
                    + all.skip(i as int + 1));
                assert(rebuilt.deep_view() =~= all.take(i as int) + (seq![(id@, snip@)] + all.skip(
                    i as int + 1,
                )));
            }
            *entries = rebuilt;
            return ;
        }
        proof {
            assert(spec_assoc_put(all.skip(i as int), id@, snip@) =~= seq![all[i as int]]
                + spec_assoc_put(all.skip(i as int + 1), id@, snip@));
            assert(all.take(i as int + 1) =~= all.take(i as int).push(all[i as int]));
            assert(all.take(i as int) + (seq![all[i as int]] + spec_assoc_put(
                all.skip(i as int + 1),
                id@,
                snip@,
            )) =~= all.take(i as int + 1) + spec_assoc_put(all.skip(i as int + 1), id@, snip@));
        }
        i += 1;
    }
    let ghost before = entries.deep_view();
    let ghost before_vec = *entries;
    let entry = (id, snip);
    let ghost entryv = entry;
    entries.push(entry);
    proof {
        lemma_deep_view_push(before_vec, *entries, entryv);
    }
    proof {
        assert(all.skip(n as int) =~= Seq::<(Seq<char>, SpecSnippet)>::empty());
        assert(spec_assoc_put(all.skip(n as int), id@, snip@) =~= seq![entryv.deep_view()]);
        assert(entries.deep_view() =~= before.push(entryv.deep_view()));
        assert(all.take(n as int) =~= all);
        assert(before.push(entryv.deep_view()) =~= all.take(n as int) + seq![entryv.deep_view()]);
    }
}

/// The lines a snippet shows: everything strictly between its start and
/// end marker lines, joined by line breaks.
pub open spec fn spec_snippet_content(lines: Seq<Seq<char>>, s: usize, e: usize) -> Seq<char> {
    spec_join(lines.subrange(s as int + 1, e as int), "\n"@)
}

/// What one start marker contributes: its ordinal pairs it with the
/// same-numbered end marker of its identifier; a pair whose end does
/// not lie strictly below its start is ignored, and a later pair for
/// the same identifier replaces an earlier one.
pub open spec fn spec_parse_step(
    lines: Seq<Seq<char>>,
    starts: Seq<SpecMarker>,
    ends: Seq<SpecMarker>,
    file: Seq<char>,
    acc: Seq<(Seq<char>, SpecSnippet)>,
    i: int,
) -> Seq<(Seq<char>, SpecSnippet)> {
    let id = starts[i].0;
    let sline = starts[i].1;
    let k = spec_positions_for(starts.take(i), id).len();
    let epos = spec_positions_for(ends, id);
    if k < epos.len() && epos[k as int].0 > sline && epos[k as int].0 <= lines.len() {
        spec_assoc_put(
            acc,
            id,
            SpecSnippet {
                content: spec_snippet_content(lines, sline, epos[k as int].0),
                file,
                line: sline,
                col: 0,
            },
        )
    } else {
        acc
    }
}

/// Fold every start marker, in scan order, into the entry list.
pub open spec fn spec_parse_fold(
    lines: Seq<Seq<char>>,
    starts: Seq<SpecMarker>,
    ends: Seq<SpecMarker>,
    file: Seq<char>,
    acc: Seq<(Seq<char>, SpecSnippet)>,
    i: int,
) -> Seq<(Seq<char>, SpecSnippet)>
    decreases starts.len() - i,
{
    if i < 0 || i >= starts.len() {
        acc
    } else {
        spec_parse_fold(
            lines,
            starts,
            ends,
            file,
            spec_parse_step(lines, starts, ends, file, acc, i),
            i + 1,
        )
    }
}

/// The snippets of one file's text: every identifier whose start and
/// end markers pair up, bound to the lines between them.
pub open spec fn spec_parse(text: Seq<char>, file: Seq<char>) -> Seq<(Seq<char>, SpecSnippet)> {
    let lines = spec_split_lines(text);
    spec_parse_fold(
        lines,
        spec_collect_markers(lines, spec_start_marker_pattern(), 0),
        spec_collect_markers(lines, spec_end_marker_pattern(), 0),
        file,
        Seq::empty(),
        0,
    )
}

/// Scan a file's text for marker comments and cut out the snippet
/// between each start marker and its same-numbered end marker.  The
/// markers' patterns are fixed; were the regex boundary to refuse them,
/// no markers would be found and the result would be empty rather than
/// [`spec_parse`]'s value.
pub fn parse(text: &str, file: &str) -> (r: Vec<(String, Snippet)>)
    requires
        text@.len() < usize::MAX,
    ensures
        crate::regex_ops::regex_valid(spec_start_marker_pattern()) && crate::regex_ops::regex_valid(
            spec_end_marker_pattern(),
        ) ==> r.deep_view() == spec_parse(text@, file@),
{
    let lines = split_lines(text);
    let ghost lines_spec = lines.deep_view();
    let ghost valid = crate::regex_ops::regex_valid(spec_start_marker_pattern())
        && crate::regex_ops::regex_valid(spec_end_marker_pattern());
    proof {
        crate::text_util::lemma_split_lines_count(text@);
    }
    let starts = collect_markers(&lines, "[//|#] marker-start (\\w+)");
    let ends = collect_markers(&lines, "[//|#] marker-end (\\w+)");
    let ghost starts_spec = starts.deep_view();
    let ghost ends_spec = ends.deep_view();
    let mut out: SnippetEntries = Vec::new();
    proof {
        crate::deep_view_util::lemma_deep_view_empty(out);
    }
    let n = starts.len();
    let mut i: usize = 0;
    while i < n
        invariant
            i <= n,
            n == starts@.len(),
            lines_spec == lines.deep_view(),
            lines_spec.len() < usize::MAX,
            starts_spec == starts.deep_view(),
            ends_spec == ends.deep_view(),
            valid == (crate::regex_ops::regex_valid(spec_start_marker_pattern())
                && crate::regex_ops::regex_valid(spec_end_marker_pattern())),
            valid ==> spec_parse_fold(
                lines_spec,
                starts_spec,
                ends_spec,
                file@,
                Seq::empty(),
                0,
            ) == spec_parse_fold(lines_spec, starts_spec, ends_spec, file@, out.deep_view(), i as int),
        decreases n - i,
    {
        let id = starts[i].0.clone();
        let sline = starts[i].1;
        // This start's ordinal among its identifier's start markers.
        let mut k: usize = 0;
        let mut j: usize = 0;
        while j < i
            invariant
                j <= i,
                i < n,
                n == starts@.len(),
                starts_spec == starts.deep_view(),
                id@ == starts_spec[i as int].0,
                k == spec_positions_for(starts_spec.take(j as int), id@).len(),
                k <= j,
            decreases i - j,
        {
            proof {
                assert(starts_spec.take(j as int + 1) =~= starts_spec.take(j as int).push(
                    starts_spec[j as int],
                ));
                lemma_positions_for_snoc(starts_spec.take(j as int), starts_spec[j as int], id@);
            }
            if str_eq(starts[j].0.as_str(), id.as_str()) {
                k += 1;
            }
            j += 1;
        }
        let epos = positions_for(&ends, id.as_str());
        if k < epos.len() {
            let eline = epos[k].0;
            if eline > sline && eline <= lines.len() {
                // Cut the lines strictly between the two marker lines.
                let mut cut: Vec<String> = Vec::new();
                let mut c: usize = sline + 1;
                proof {
                    crate::deep_view_util::lemma_deep_view_empty(cut);
                }
                while c < eline
                    invariant
                        sline + 1 <= c <= eline,
                        eline <= lines@.len(),
                        lines_spec == lines.deep_view(),
                        cut.deep_view() =~= lines_spec.subrange(sline as int + 1, c as int),
                    decreases eline - c,
                {
                    let ghost cut0 = cut;
                    let line = lines[c].clone();
                    let ghost linev = line;
                    cut.push(line);
                    proof {
                        lemma_deep_view_push(cut0, cut, linev);
                        assert(lines_spec.subrange(sline as int + 1, c as int + 1) =~= lines_spec
                            .subrange(sline as int + 1, c as int).push(lines_spec[c as int]));
                    }
                    c += 1;
                }
                let content = join_with(&cut, "\n");
                let snip = Snippet { content, file: String::from_str(file), line: sline, col: 0 };
                let ghost out0 = out.deep_view();
                let ghost snipv = snip;
                assoc_put(&mut out, id, snip);
                proof {
                    if valid {
                        assert(out.deep_view() == spec_parse_step(
                            lines_spec,
                            starts_spec,
                            ends_spec,
                            file@,
                            out0,
                            i as int,
                        ));
                    }
                }
            } else {
                proof {
                    if valid {
                        assert(out.deep_view() == spec_parse_step(
                            lines_spec,
                            starts_spec,
                            ends_spec,
                            file@,
                            out.deep_view(),
                            i as int,
                        ));
                    }
                }
            }
        } else {
            proof {
                if valid {
                    assert(out.deep_view() == spec_parse_step(
                        lines_spec,
                        starts_spec,
                        ends_spec,
                        file@,
                        out.deep_view(),
                        i as int,
                    ));
                }
            }
        }
        i += 1;
    }
    proof {
        if valid {
            assert(spec_parse_fold(
                lines_spec,
                starts_spec,
                ends_spec,
                file@,
                out.deep_view(),
                n as int,
            ) == out.deep_view());
            assert(starts_spec == spec_collect_markers(lines_spec, spec_start_marker_pattern(), 0));
            assert(ends_spec == spec_collect_markers(lines_spec, spec_end_marker_pattern(), 0));
            assert(out.deep_view() == spec_parse(text@, file@));
        }
    }
    out
}

/// Extending the scanned prefix by one marker grows the identifier's
/// position list exactly when the marker carries that identifier.
proof fn lemma_positions_for_snoc(flat: Seq<SpecMarker>, m: SpecMarker, id: Seq<char>)
    ensures
        spec_positions_for(flat.push(m), id) == if m.0 == id {
            spec_positions_for(flat, id).push((m.1, m.2))
        } else {
            spec_positions_for(flat, id)
        },
    decreases flat.len(),
{
    reveal_with_fuel(spec_positions_for, 2);
    let whole = flat.push(m);
    if flat.len() == 0 {
        assert(whole[0] == m);
        assert(whole.drop_first() =~= Seq::<SpecMarker>::empty());
        if m.0 == id {
            assert(spec_positions_for(whole, id) =~= spec_positions_for(flat, id).push((m.1, m.2)));
        }
    } else {
        assert(whole[0] == flat[0]);
        assert(whole.drop_first() =~= flat.drop_first().push(m));
        lemma_positions_for_snoc(flat.drop_first(), m, id);
        if m.0 == id {
            assert(spec_positions_for(whole, id) =~= spec_positions_for(flat, id).push((m.1, m.2)));
        } else {
            assert(spec_positions_for(whole, id) =~= spec_positions_for(flat, id));
        }
    }
}

} // verus!
