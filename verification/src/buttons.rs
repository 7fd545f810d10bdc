//! Playground-button insertion for fenced code blocks: the decisions.
//!
//! A fenced code block whose fence line carries `tag:playground-button`
//! gets a button that opens the block in the playground.  The fence line
//! also chooses how the code is wrapped: one of three named `main`
//! wrappings, or a custom pair of before/after fragments quoted in the
//! fence.  The wrapped code is run through a formatter — an outside
//! process, so the caller performs it and picks the result with
//! [`choose_formatted`] — and ends up percent-encoded in a playground
//! URL.

use vstd::prelude::*;
use vstd::string::{StringExecFns, StrSliceExecFns};

use crate::event::{Event, SpecEvent};
use crate::text_util::{
    split_ws, spec_tokens, has_prefix, has_suffix, str_eq, join_with, spec_join, replace_all,
    spec_replace_all,
};
use crate::deep_view_util::lemma_deep_view_push;

verus! {

/// What is written around a code block before it is handed to the
/// playground: a fragment before and a fragment after.
#[derive(Debug, PartialEq, Eq, Hash)]
pub struct Template {
    /// Written before the code.
    pub pre: String,
    /// Written after the code.
    pub post: String,
}

impl Clone for Template {
    fn clone(&self) -> (r: Self)
        ensures
            r@ == self@,
    {
        Template { pre: self.pre.clone(), post: self.post.clone() }
    }
}

/// Spec-level value of a [`Template`].
pub struct SpecTemplate {
    pub pre: Seq<char>,
    pub post: Seq<char>,
}

impl View for Template {
    type V = SpecTemplate;

    open spec fn view(&self) -> SpecTemplate {
        SpecTemplate { pre: self.pre@, post: self.post@ }
    }
}

/// Whether some token of the fence equals the word.
pub open spec fn spec_has_token(tokens: Seq<Seq<char>>, word: Seq<char>) -> bool {
    exists|i: int| 0 <= i < tokens.len() && tokens[i] == word
}

/// Whether some token of the fence line equals the word.
pub fn fence_has_token(fence: &str, word: &str) -> (r: bool)
    ensures
        r == spec_has_token(spec_tokens(fence@), word@),
{
    let tokens = split_ws(fence);
    let ghost toks = tokens.deep_view();
    let n = tokens.len();
    let mut i: usize = 0;
    while i < n
        invariant
            i <= n,
            n == tokens@.len(),
            toks == tokens.deep_view(),
            toks == spec_tokens(fence@),
            forall|k: int| 0 <= k < i ==> #[trigger] toks[k] != word@,
        decreases n - i,
    {
        if str_eq(tokens[i].as_str(), word) {
            proof {
                assert(toks[i as int] == word@);
            }
            return true;
        }
        i += 1;
    }
    false
}

/// The last fence token starting with the prefix, if any.
pub open spec fn spec_last_with_prefix(tokens: Seq<Seq<char>>, prefix: Seq<char>) -> Option<
    Seq<char>,
>
    decreases tokens.len(),
{
    if tokens.len() == 0 {
        None
    } else if prefix.is_prefix_of(tokens.last()) {
        Some(tokens.last())
    } else {
        spec_last_with_prefix(tokens.drop_last(), prefix)
    }
}

/// The last token of the fence line starting with the prefix, if any.
pub fn fence_token_with_prefix(fence: &str, prefix: &str) -> (r: Option<String>)
    ensures
        r.deep_view() == spec_last_with_prefix(spec_tokens(fence@), prefix@),
{
    let tokens = split_ws(fence);
    let ghost toks = tokens.deep_view();
    let mut i: usize = tokens.len();
    proof {
        assert(toks.take(i as int) =~= toks);
    }
    while i > 0
        invariant
            i <= tokens@.len(),
            toks == tokens.deep_view(),
            toks == spec_tokens(fence@),
            spec_last_with_prefix(toks, prefix@) == spec_last_with_prefix(
                toks.take(i as int),
                prefix@,
            ),
        decreases i,
    {
        proof {
            assert(toks.take(i as int).last() == toks[i as int - 1]);
            assert(toks.take(i as int).drop_last() =~= toks.take(i as int - 1));
        }
        if has_prefix(tokens[i - 1].as_str(), prefix) {
            let found = tokens[i - 1].clone();
            return Some(found);
        }
        i -= 1;
    }
    proof {
        assert(toks.take(0) =~= Seq::<Seq<char>>::empty());
    }
    None
}

/// Whether the fence line claims the playground button: its last
/// `tag:`-token is exactly `tag:playground-button`.
pub fn wants_playground_button(fence: &str) -> (r: bool)
    ensures
        r == (spec_last_with_prefix(spec_tokens(fence@), "tag:"@) == Some(
            "tag:playground-button"@,
        )),
{
    let tag = fence_token_with_prefix(fence, "tag:");
    match tag {
        Some(t) => {
            let r = str_eq(t.as_str(), "tag:playground-button");
            proof {
                if !r {
                    assert(spec_last_with_prefix(spec_tokens(fence@), "tag:"@) != Some(
                        "tag:playground-button"@,
                    ));
                }
            }
            r
        },
        None => false,
    }
}

/// The fence tokens from the first one starting with the prefix.
pub open spec fn spec_from_prefix(tokens: Seq<Seq<char>>, prefix: Seq<char>) -> Seq<Seq<char>>
    decreases tokens.len(),
{
    if tokens.len() == 0 {
        tokens
    } else if prefix.is_prefix_of(tokens[0]) {
        tokens
    } else {
        spec_from_prefix(tokens.drop_first(), prefix)
    }
}

/// The tokens up to and including the first one ending with the suffix.
pub open spec fn spec_through_suffix(tokens: Seq<Seq<char>>, suffix: Seq<char>) -> Seq<Seq<char>>
    decreases tokens.len(),
{
    if tokens.len() == 0 {
        tokens
    } else if suffix.is_suffix_of(tokens[0]) {
        seq![tokens[0]]
    } else {
        seq![tokens[0]] + spec_through_suffix(tokens.drop_first(), suffix)
    }
}

/// The quoted fragment a fence line carries after a marker: the tokens
/// from the first starting with `open`, through the first ending with
/// `close`, joined by single spaces.
pub open spec fn spec_quoted_fragment(
    tokens: Seq<Seq<char>>,
    open: Seq<char>,
    close: Seq<char>,
) -> Seq<char> {
    spec_join(spec_through_suffix(spec_from_prefix(tokens, open), close), " "@)
}

/// Collect the quoted fragment from the fence tokens.
#[verifier::rlimit(50)]
fn quoted_fragment(tokens: &Vec<String>, open: &str, close: &str) -> (r: String)
    ensures
        r@ == spec_quoted_fragment(tokens.deep_view(), open@, close@),
{
    let ghost toks = tokens.deep_view();
    let n = tokens.len();
    let mut i: usize = 0;
    proof {
        assert(toks.skip(0) =~= toks);
    }
    while i < n && !has_prefix(tokens[i].as_str(), open)
        invariant
            i <= n,
            n == tokens@.len(),
            toks == tokens.deep_view(),
            spec_from_prefix(toks, open@) == spec_from_prefix(toks.skip(i as int), open@),
        decreases n - i,
    {
        proof {
            assert(toks.skip(i as int)[0] == toks[i as int]);
            assert(toks.skip(i as int).drop_first() =~= toks.skip(i as int + 1));
        }
        i += 1;
    }
    let ghost from = spec_from_prefix(toks, open@);
    proof {
        if i < n {
            assert(toks.skip(i as int)[0] == toks[i as int]);
        } else {
            assert(toks.skip(i as int) =~= Seq::<Seq<char>>::empty());
        }
        assert(from == toks.skip(i as int));
    }
    let mut taken: Vec<String> = Vec::new();
    proof {
        crate::deep_view_util::lemma_deep_view_empty(taken);
    }
    let mut j: usize = i;
    while j < n
        invariant
            i <= j <= n,
            n == tokens@.len(),
            toks == tokens.deep_view(),
            from == toks.skip(i as int),
            from == spec_from_prefix(toks, open@),
            spec_through_suffix(from, close@) == taken.deep_view() + spec_through_suffix(
                toks.skip(j as int),
                close@,
            ),
            forall|k: int| i <= k < j ==> !close@.is_suffix_of(#[trigger] toks[k]),
        decreases n - j,
    {
        proof {
            assert(toks.skip(j as int)[0] == toks[j as int]);
            assert(toks.skip(j as int).drop_first() =~= toks.skip(j as int + 1));
        }
        let ghost t0 = taken;
        let tok = tokens[j].clone();
        let ghost tokv = tok;
        let done = has_suffix(tok.as_str(), close);
        taken.push(tok);
        proof {
            lemma_deep_view_push(t0, taken, tokv);
        }
        if done {
            proof {
                assert(tokv.deep_view() == toks[j as int]);
                assert(spec_through_suffix(toks.skip(j as int), close@) =~= seq![toks[j as int]]);
                assert(t0.deep_view() + seq![toks[j as int]] =~= taken.deep_view());
                assert(spec_through_suffix(from, close@) == taken.deep_view());
            }
            let joined = join_with(&taken, " ");
            proof {
                assert(joined@ == spec_join(taken.deep_view(), " "@));
                assert(spec_join(taken.deep_view(), " "@) == spec_join(
                    spec_through_suffix(spec_from_prefix(toks, open@), close@),
                    " "@,
                ));
            }
            return joined;
        }
        proof {
            assert(t0.deep_view() + (seq![toks[j as int]] + spec_through_suffix(
                toks.skip(j as int + 1),
                close@,
            )) =~= taken.deep_view() + spec_through_suffix(toks.skip(j as int + 1), close@));
        }
        j += 1;
    }
    proof {
        assert(toks.skip(n as int) =~= Seq::<Seq<char>>::empty());
        assert(taken.deep_view() + spec_through_suffix(toks.skip(n as int), close@)
            =~= taken.deep_view());
    }
    join_with(&taken, " ")
}

/// What one before/after fragment of a custom template is: the quoted
/// fragment with its opening and closing quote markers removed.
pub open spec fn spec_custom_fragment(
    tokens: Seq<Seq<char>>,
    open: Seq<char>,
    close: Seq<char>,
    strip_open: Seq<char>,
) -> Seq<char> {
    spec_replace_all(
        spec_replace_all(spec_quoted_fragment(tokens, open, close), strip_open, Seq::empty()),
        "\"$"@,
        Seq::empty(),
    )
}

/// Inserts a playground button over fenced code blocks that ask for one.
#[derive(Debug, Default)]
pub struct PlaygroundButtonInserter;

impl PlaygroundButtonInserter {
    /// The wrapping the fence line asks for: one of the three named
    /// `main` wrappings, or the custom before/after fragments quoted in
    /// the fence line.
    pub fn template(&self, fence: &str) -> (r: Template)
        ensures
            ({
                let toks = spec_tokens(fence@);
                if spec_has_token(toks, "playground-wrap:main"@) {
                    r@.pre == "fn main() {"@ && r@.post == "}"@
                } else if spec_has_token(toks, "playground-wrap:main_anyhow"@) {
                    r@.pre == "fn main() -> anyhow::Result<()> {"@ && r@.post == "Ok(())\n}"@
                } else if spec_has_token(toks, "playground-wrap:main_tokio_anyhow"@) {
                    r@.pre == "#[tokio::main]\nasync fn main() -> anyhow::Result<()> {"@ && r@.post
                        == "Ok(())\n}"@
                } else {
                    r@.pre == spec_custom_fragment(
                        toks,
                        "playground-before:$\""@,
                        "\"$"@,
                        "playground-before:$\""@,
                    ) && r@.post == spec_custom_fragment(
                        toks,
                        "playground-after:"@,
                        "$\""@,
                        "playground-after:$\""@,
                    )
                }
            }),
    {
        if fence_has_token(fence, "playground-wrap:main") {
            Template {
                pre: String::from_str("fn main() {"),
                post: String::from_str("}"),
            }
        } else if fence_has_token(fence, "playground-wrap:main_anyhow") {
            Template {
                pre: String::from_str("fn main() -> anyhow::Result<()> {"),
                post: String::from_str("Ok(())\n}"),
            }
        } else if fence_has_token(fence, "playground-wrap:main_tokio_anyhow") {
            Template {
                pre: String::from_str("#[tokio::main]\nasync fn main() -> anyhow::Result<()> {"),
                post: String::from_str("Ok(())\n}"),
            }
        } else {
            proof {
                reveal_strlit("playground-before:$\"");
                reveal_strlit("playground-after:$\"");
                reveal_strlit("playground-after:");
                reveal_strlit("\"$");
                reveal_strlit("$\"");
            }
            let tokens = split_ws(fence);
            let before_raw = quoted_fragment(&tokens, "playground-before:$\"", "\"$");
            let before1 = replace_all(before_raw.as_str(), "playground-before:$\"", "");
            let before = replace_all(before1.as_str(), "\"$", "");
            let after_raw = quoted_fragment(&tokens, "playground-after:", "$\"");
            let after1 = replace_all(after_raw.as_str(), "playground-after:$\"", "");
            let after = replace_all(after1.as_str(), "\"$", "");
            proof {
                reveal_strlit("");
                assert(""@ =~= Seq::<char>::empty());
            }
            Template { pre: before, post: after }
        }
    }

    /// The code as the playground will see it: the template's fragments
    /// around the block, with every literal `\n` marker turned into a
    /// real line break.
    pub fn wrapped_code(&self, template: &Template, code: &str) -> (r: String)
        ensures
            r@ == spec_replace_all(template@.pre + code@ + template@.post, "\\n"@, "\n"@),
    {
        proof {
            reveal_strlit("\\n");
        }
        let mut text = template.pre.clone();
        text.append(code);
        text.append(template.post.as_str());
        replace_all(text.as_str(), "\\n", "\n")
    }

    /// The quoted playground URL for a formatted code block.
    pub fn url(&self, code: &str) -> (r: String)
        ensures
            r@ == "'https://play.rust-lang.org/?version=stable&mode=debug&edition=2021&code="@
                + crate::urlencode::url_encoded(code@) + "'"@,
    {
        let encoded = crate::urlencode::url_encode(code);
        let mut r = String::from_str(
            "'https://play.rust-lang.org/?version=stable&mode=debug&edition=2021&code=",
        );
        r.append(encoded.as_str());
        r.append("'");
        r
    }
}

/// What the formatter run decides: an empty or failed run falls back to
/// the unformatted code rather than erroring.
pub fn choose_formatted(original: &str, formatted: Option<String>) -> (r: String)
    ensures
        ({
            match formatted {
                Some(f) => if f@.len() == 0 {
                    r@ == original@
                } else {
                    r@ == f@
                },
                None => r@ == original@,
            }
        }),
{
    match formatted {
        Some(f) => {
            if f.as_str().is_empty() {
                String::from_str(original)
            } else {
                f
            }
        },
        None => String::from_str(original),
    }
}

/// The events of one rendered button: a positioned paragraph holding a
/// button that opens the URL in a new tab.
pub open spec fn spec_button_events(url: Seq<char>, btn_text: Seq<char>) -> Seq<SpecEvent> {
    seq![
        SpecEvent::Html(
            "<p style=\"position: absolute; right: 10px; top: 10px; padding: 0; margin: 0; line-height: 0\">\n"@,
        ),
        SpecEvent::Html("<button\n    onclick=\"window.open("@),
        SpecEvent::Html(url),
        SpecEvent::Html(",'_blank')\"\n"@),
        SpecEvent::Html("    style=\"\n"@),
        SpecEvent::Html("    height: fit-content;\n"@),
        SpecEvent::Html("    margin: 0;\n"@),
        SpecEvent::Html("    font-weight: bold;\"\n"@),
        SpecEvent::Html(">"@ + btn_text + "\n"@),
        SpecEvent::Html("</button>\n"@),
        SpecEvent::Html("</p>\n"@),
    ]
}

/// Build the events of one button opening the URL.
pub fn make_button(url: String, btn_text: String) -> (r: Vec<Event>)
    ensures
        r.deep_view() == spec_button_events(url@, btn_text@),
{
    let ghost urlv = url@;
    let ghost textv = btn_text@;
    let mut label = String::from_str(">");
    label.append(btn_text.as_str());
    label.append("\n");
    let mut button: Vec<Event> = Vec::new();
    button.push(Event::Html(String::from_str(
        "<p style=\"position: absolute; right: 10px; top: 10px; padding: 0; margin: 0; line-height: 0\">\n",
    )));
    button.push(Event::Html(String::from_str("<button\n    onclick=\"window.open(")));
    button.push(Event::Html(url));
    button.push(Event::Html(String::from_str(",'_blank')\"\n")));
    button.push(Event::Html(String::from_str("    style=\"\n")));
    button.push(Event::Html(String::from_str("    height: fit-content;\n")));
    button.push(Event::Html(String::from_str("    margin: 0;\n")));
    button.push(Event::Html(String::from_str("    font-weight: bold;\"\n")));
    button.push(Event::Html(label));
    button.push(Event::Html(String::from_str("</button>\n")));
    button.push(Event::Html(String::from_str("</p>\n")));
    proof {
        assert(button.deep_view() =~= spec_button_events(urlv, textv));
    }
    button
}

/// A line whose first non-whitespace text is a snippet marker comment.
pub open spec fn spec_is_marker_line(l: Seq<char>) -> bool {
    "// marker-"@.is_prefix_of(l.skip(crate::text_util::first_non_ws(l)))
        || "# marker-"@.is_prefix_of(l.skip(crate::text_util::first_non_ws(l)))
}

/// The lines that are not marker comments, in order.
pub open spec fn spec_kept_lines(lines: Seq<Seq<char>>) -> Seq<Seq<char>>
    decreases lines.len(),
{
    if lines.len() == 0 {
        Seq::empty()
    } else if spec_is_marker_line(lines[0]) {
        spec_kept_lines(lines.drop_first())
    } else {
        seq![lines[0]] + spec_kept_lines(lines.drop_first())
    }
}

/// Drop every marker-comment line from a snippet's content.
fn strip_marker_lines(content: &str) -> (r: String)
    ensures
        r@ == spec_join(spec_kept_lines(crate::text_util::spec_split_lines(content@)), "\n"@),
{
    let lines = crate::text_util::split_lines(content);
    let ghost all = lines.deep_view();
    let mut kept: Vec<String> = Vec::new();
    proof {
        crate::deep_view_util::lemma_deep_view_empty(kept);
        assert(all.skip(0) =~= all);
    }
    let n = lines.len();
    let mut i: usize = 0;
    while i < n
        invariant
            i <= n,
            n == lines@.len(),
            all == lines.deep_view(),
            spec_kept_lines(all) == kept.deep_view() + spec_kept_lines(all.skip(i as int)),
        decreases n - i,
    {
        proof {
            assert(all.skip(i as int)[0] == all[i as int]);
            assert(all.skip(i as int).drop_first() =~= all.skip(i as int + 1));
        }
        let trimmed = crate::text_util::trim_start_ws(lines[i].as_str());
        let marker = has_prefix(trimmed.as_str(), "// marker-") || has_prefix(
            trimmed.as_str(),
            "# marker-",
        );
        if !marker {
            let ghost k0 = kept;
            let line = lines[i].clone();
            let ghost linev = line;
            kept.push(line);
            proof {
                lemma_deep_view_push(k0, kept, linev);
                assert(k0.deep_view() + (seq![all[i as int]] + spec_kept_lines(
                    all.skip(i as int + 1),
                )) =~= kept.deep_view() + spec_kept_lines(all.skip(i as int + 1)));
            }
        }
        i += 1;
    }
    proof {
        assert(all.skip(n as int) =~= Seq::<Seq<char>>::empty());
        assert(kept.deep_view() + spec_kept_lines(all.skip(n as int)) =~= kept.deep_view());
    }
    join_with(&kept, "\n")
}

/// A token found by [`spec_last_with_prefix`] carries the prefix.
proof fn lemma_last_with_prefix_has_prefix(tokens: Seq<Seq<char>>, prefix: Seq<char>)
    ensures
        spec_last_with_prefix(tokens, prefix) matches Some(t) ==> prefix.is_prefix_of(t),
    decreases tokens.len(),
{
    if tokens.len() == 0 {
    } else if prefix.is_prefix_of(tokens.last()) {
    } else {
        lemma_last_with_prefix_has_prefix(tokens.drop_last(), prefix);
    }
}

/// The snippet identifier a fence line names: the last `marker:` token
/// with the prefix removed.
pub open spec fn spec_marker_id(fence: Seq<char>) -> Option<Seq<char>> {
    match spec_last_with_prefix(spec_tokens(fence), "marker:"@) {
        Some(t) => Some(t.skip("marker:"@.len() as int)),
        None => None,
    }
}

/// What one snippet shows in the block: its content, marker lines
/// dropped when asked, then dedented.
pub open spec fn spec_snippet_block(content: Seq<char>, hide: bool) -> Seq<char> {
    if hide {
        crate::dedent::dedented(
            spec_join(spec_kept_lines(crate::text_util::spec_split_lines(content)), "\n"@),
        )
    } else {
        crate::dedent::dedented(content)
    }
}

/// The line number a button shows: one past the marker line, saturating
/// rather than overflowing at the numeric limit.
pub open spec fn spec_display_line(line: usize) -> usize {
    if line == usize::MAX {
        line
    } else {
        (line + 1) as usize
    }
}

/// The editor URL of one snippet's source position.
pub open spec fn spec_vscode_url(file: Seq<char>, line: usize, col: usize) -> Seq<char> {
    "'vscode://file/'.concat(make_path('"@ + file + ":"@ + crate::text_util::spec_decimal(
        spec_display_line(line) as nat,
    ) + ":"@ + crate::text_util::spec_decimal(col as nat) + "'))"@
}

/// Inserts an editor button over fenced code blocks that name an
/// extracted snippet.
#[derive(Debug)]
pub struct SnippetButtonInserter {
    /// The extracted snippets the buttons point into.
    pub snippets: crate::snippets::Snippets,
}

impl SnippetButtonInserter {
    /// An inserter over the given snippets.
    pub fn with_snippets(snippets: crate::snippets::Snippets) -> (r: Self)
        ensures
            r.snippets.snippets.deep_view() == snippets.snippets.deep_view(),
    {
        SnippetButtonInserter { snippets }
    }

    /// Handle one fenced code block: when its fence names a snippet
    /// marker the block's shown text, the editor URL and the button
    /// label are returned; the last snippet stored under the identifier
    /// decides.
    pub fn handle_codeblock(&self, fence: &str, _code: &str) -> (r: Option<(String, String, String)>)
        ensures
            ({
                let found = match spec_marker_id(fence@) {
                    Some(id) => crate::snippets::spec_snippets_for_id(
                        self.snippets.snippets.deep_view(),
                        id,
                    ),
                    None => Seq::empty(),
                };
                if found.len() == 0 {
                    r is None
                } else {
                    let last = found.last();
                    let hide = spec_has_token(spec_tokens(fence@), "hide_other_markers"@);
                    r matches Some(b) && b.0@ == spec_snippet_block(last.content, hide) && b.1@
                        == spec_vscode_url(last.file, last.line, last.col) && b.2@
                        == "Open VSCode"@
                }
            }),
    {
        let marker = fence_token_with_prefix(fence, "marker:");
        let Some(token) = marker else {
            return None;
        };
        proof {
            lemma_last_with_prefix_has_prefix(spec_tokens(fence@), "marker:"@);
        }
        let id = crate::text_util::strip_prefix_string(token.as_str(), "marker:");
        let found = self.snippets.snippets_for_id(id.as_str());
        if found.len() == 0 {
            return None;
        }
        let last = &found[found.len() - 1];
        proof {
            assert(last@ == crate::snippets::spec_snippets_for_id(
                self.snippets.snippets.deep_view(),
                id@,
            ).last());
        }
        let hide = fence_has_token(fence, "hide_other_markers");
        let block = if hide {
            let stripped = strip_marker_lines(last.content.as_str());
            crate::dedent::dedent(stripped.as_str())
        } else {
            crate::dedent::dedent(last.content.as_str())
        };
        let display_line = if last.line == usize::MAX {
            last.line
        } else {
            last.line + 1
        };
        let mut url = String::from_str("'vscode://file/'.concat(make_path('");
        url.append(last.file.as_str());
        url.append(":");
        let line_digits = crate::text_util::usize_to_string(display_line);
        url.append(line_digits.as_str());
        url.append(":");
        let col_digits = crate::text_util::usize_to_string(last.col);
        url.append(col_digits.as_str());
        url.append("'))");
        Some((block, url, String::from_str("Open VSCode")))
    }
}

/// Replaces an `empty_playground` link with an inline playground frame;
/// the frame markup asset lives with the caller.
#[derive(Debug, Clone, Copy, Default)]
pub struct EmptyPlaygroundInserter;

impl EmptyPlaygroundInserter {
    /// A fresh inserter.
    pub fn new() -> (r: Self) {
        EmptyPlaygroundInserter
    }

    /// The tag this inserter claims.
    pub fn tag(&self) -> (r: String)
        ensures
            r@ == "empty_playground"@,
    {
        String::from_str("empty_playground")
    }

    /// The replacement event: the caller's frame markup as inline HTML.
    pub fn apply(&self, markup: &str) -> (r: Event)
        ensures
            r@ == SpecEvent::Html(markup@),
    {
        Event::Html(String::from_str(markup))
    }
}

} // verus!
