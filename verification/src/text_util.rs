//! Small verified string helpers used across the library.

use vstd::prelude::*;
use vstd::string::{StrSliceExecFns, StringExecFns};

verus! {

/// Relies on `String::push`: it appends exactly the one character.
pub assume_specification[ String::push ](s: &mut String, ch: char)
    ensures
        final(s)@ == old(s)@.push(ch),
;

/// Whether `p` is a prefix of `s`, character by character.
pub fn has_prefix(s: &str, p: &str) -> (r: bool)
    ensures
        r == p@.is_prefix_of(s@),
{
    let np = p.unicode_len();
    let ns = s.unicode_len();
    if np > ns {
        return false;
    }
    let mut i: usize = 0;
    while i < np
        invariant
            i <= np,
            np == p@.len(),
            ns == s@.len(),
            np <= ns,
            forall|k: int| 0 <= k < i ==> p@[k] == s@[k],
        decreases np - i,
    {
        if s.get_char(i) != p.get_char(i) {
            proof {
                assert(!(p@ =~= s@.subrange(0, np as int)));
            }
            return false;
        }
        i += 1;
    }
    proof {
        assert(p@ =~= s@.subrange(0, np as int));
    }
    true
}

/// Whether two strings hold the same characters.
pub fn str_eq(a: &str, b: &str) -> (r: bool)
    ensures
        r == (a@ == b@),
{
    let na = a.unicode_len();
    let nb = b.unicode_len();
    if na != nb {
        return false;
    }
    let r = has_prefix(a, b);
    proof {
        assert(a@.subrange(0, a@.len() as int) =~= a@);
    }
    r
}

/// Whether `p` is a suffix of `s`, character by character.
pub fn has_suffix(s: &str, p: &str) -> (r: bool)
    ensures
        r == p@.is_suffix_of(s@),
{
    let np = p.unicode_len();
    let ns = s.unicode_len();
    if np > ns {
        return false;
    }
    let mut i: usize = 0;
    while i < np
        invariant
            i <= np,
            np == p@.len(),
            ns == s@.len(),
            np <= ns,
            forall|k: int| 0 <= k < i ==> #[trigger] p@[k] == s@[ns - np + k],
        decreases np - i,
    {
        if s.get_char(ns - np + i) != p.get_char(i) {
            proof {
                assert(s@.subrange(ns as int - np as int, ns as int)[i as int] == s@[ns as int
                    - np as int + i as int]);
                assert(p@ != s@.subrange(ns as int - np as int, ns as int));
            }
            return false;
        }
        i += 1;
    }
    proof {
        assert(p@ =~= s@.subrange(ns as int - np as int, ns as int));
    }
    true
}

/// The string with one leading occurrence of `p` removed, if present;
/// otherwise the string unchanged.
pub fn strip_prefix_string(s: &str, p: &str) -> (r: String)
    ensures
        p@.is_prefix_of(s@) ==> r@ == s@.skip(p@.len() as int),
        !p@.is_prefix_of(s@) ==> r@ == s@,
{
    if has_prefix(s, p) {
        let np = p.unicode_len();
        let ns = s.unicode_len();
        let tail = s.substring_char(np, ns);
        proof {
            assert(s@.subrange(np as int, ns as int) =~= s@.skip(np as int));
        }
        String::from_str(tail)
    } else {
        String::from_str(s)
    }
}

/// An ASCII whitespace character, the separators token splitting uses.
pub open spec fn is_ws(c: char) -> bool {
    c == ' ' || c == '\t' || c == '\n' || c == '\r'
}

/// The index of the first whitespace character, or the length.
pub open spec fn first_ws(s: Seq<char>) -> int
    decreases s.len(),
{
    if s.len() == 0 {
        0
    } else if is_ws(s[0]) {
        0
    } else {
        1 + first_ws(s.drop_first())
    }
}

/// If everything before `j` is non-whitespace and `j` is the end or a
/// whitespace character, the first whitespace is at `j`.
pub proof fn lemma_first_ws_at(s: Seq<char>, j: int)
    requires
        0 <= j <= s.len(),
        forall|k: int| 0 <= k < j ==> !is_ws(#[trigger] s[k]),
        j == s.len() || is_ws(s[j]),
    ensures
        first_ws(s) == j,
    decreases j,
{
    if s.len() == 0 {
    } else if j == 0 {
    } else {
        assert(!is_ws(s[0]));
        assert(forall|k: int| 0 <= k < j - 1 ==> s.drop_first()[k] == #[trigger] s[k + 1]);
        lemma_first_ws_at(s.drop_first(), j - 1);
    }
}

/// The whitespace-separated tokens of a character sequence, in order;
/// separators are dropped, tokens are never empty.
pub open spec fn spec_tokens(s: Seq<char>) -> Seq<Seq<char>>
    decreases s.len(),
    via spec_tokens_dec
{
    if s.len() == 0 {
        Seq::empty()
    } else if is_ws(s[0]) {
        spec_tokens(s.drop_first())
    } else {
        let j = first_ws(s);
        seq![s.take(j)] + spec_tokens(s.skip(j))
    }
}

#[via_fn]
proof fn spec_tokens_dec(s: Seq<char>) {
    if s.len() > 0 && !is_ws(s[0]) {
        lemma_first_ws_bounds(s);
    }
}

/// First-whitespace index is positive on a non-whitespace head and at
/// most the length.
pub proof fn lemma_first_ws_bounds(s: Seq<char>)
    ensures
        0 <= first_ws(s) <= s.len(),
        s.len() > 0 && !is_ws(s[0]) ==> first_ws(s) >= 1,
    decreases s.len(),
{
    if s.len() == 0 {
    } else if is_ws(s[0]) {
    } else {
        lemma_first_ws_bounds(s.drop_first());
    }
}

/// Split a string into its whitespace-separated tokens.
pub fn split_ws(s: &str) -> (r: Vec<String>)
    ensures
        r.deep_view() == spec_tokens(s@),
{
    let chars = chars_of(s);
    let ghost all = s@;
    let n = chars.len();
    let mut r: Vec<String> = Vec::new();
    proof {
        crate::deep_view_util::lemma_deep_view_empty(r);
        assert(all.skip(0) =~= all);
    }
    let mut p: usize = 0;
    while p < n
        invariant
            p <= n,
            n == chars@.len(),
            chars@ == all,
            spec_tokens(all) == r.deep_view() + spec_tokens(all.skip(p as int)),
        decreases n - p,
    {
        if is_ws_exec(chars[p]) {
            proof {
                assert(all.skip(p as int).drop_first() =~= all.skip(p + 1 as int));
            }
            p += 1;
        } else {
            let start = p;
            let mut q = p;
            let mut token: Vec<char> = Vec::new();
            while q < n && !is_ws_exec(chars[q])
                invariant
                    start <= q <= n,
                    n == chars@.len(),
                    chars@ == all,
                    token@ == all.subrange(start as int, q as int),
                    forall|k: int| start <= k < q ==> !is_ws(#[trigger] all[k]),
                decreases n - q,
            {
                token.push(chars[q]);
                proof {
                    assert(all.subrange(start as int, q + 1 as int) =~= all.subrange(
                        start as int,
                        q as int,
                    ).push(all[q as int]));
                }
                q += 1;
            }
            proof {
                let tail = all.skip(start as int);
                assert(forall|k: int| 0 <= k < q - start ==> tail[k] == #[trigger] all[k
                    + start as int]);
                assert(forall|k: int| 0 <= k < q - start ==> !is_ws(#[trigger] tail[k]));
                if q < n {
                    assert(is_ws(tail[q - start as int]));
                }
                lemma_first_ws_at(tail, q - start as int);
                assert(tail.take(q - start as int) =~= all.subrange(start as int, q as int));
                assert(tail.skip(q - start as int) =~= all.skip(q as int));
            }
            let tok = string_of(&token);
            let ghost r0 = r;
            let ghost tokv = tok;
            r.push(tok);
            proof {
                crate::deep_view_util::lemma_deep_view_push(r0, r, tokv);
                assert(r.deep_view() + spec_tokens(all.skip(q as int)) =~= r0.deep_view() + (seq![
                    all.subrange(start as int, q as int),
                ] + spec_tokens(all.skip(q as int))));
            }
            p = q;
        }
    }
    proof {
        assert(all.skip(n as int) =~= Seq::<char>::empty());
        assert(r.deep_view() + spec_tokens(all.skip(n as int)) =~= r.deep_view());
    }
    r
}

/// Executable form of [`is_ws`].
pub fn is_ws_exec(c: char) -> (r: bool)
    ensures
        r == is_ws(c),
{
    c == ' ' || c == '\t' || c == '\n' || c == '\r'
}

/// The index of the first line break, or the length.
pub open spec fn first_nl(s: Seq<char>) -> int
    decreases s.len(),
{
    if s.len() == 0 {
        0
    } else if s[0] == '\n' {
        0
    } else {
        1 + first_nl(s.drop_first())
    }
}

/// If everything before `j` is not a line break and `j` is the end or a
/// line break, the first line break is at `j`.
pub proof fn lemma_first_nl_at(s: Seq<char>, j: int)
    requires
        0 <= j <= s.len(),
        forall|k: int| 0 <= k < j ==> #[trigger] s[k] != '\n',
        j == s.len() || s[j] == '\n',
    ensures
        first_nl(s) == j,
    decreases j,
{
    if s.len() == 0 {
    } else if j == 0 {
    } else {
        assert(s[0] != '\n');
        assert(forall|k: int| 0 <= k < j - 1 ==> s.drop_first()[k] == #[trigger] s[k + 1]);
        lemma_first_nl_at(s.drop_first(), j - 1);
    }
}

/// The first line break is within the sequence.
pub proof fn lemma_first_nl_bounds(s: Seq<char>)
    ensures
        0 <= first_nl(s) <= s.len(),
    decreases s.len(),
{
    if s.len() == 0 {
    } else if s[0] == '\n' {
    } else {
        lemma_first_nl_bounds(s.drop_first());
    }
}

/// A line without its trailing carriage return, if it has one.
pub open spec fn trim_cr(l: Seq<char>) -> Seq<char> {
    if l.len() > 0 && l.last() == '\r' {
        l.drop_last()
    } else {
        l
    }
}

/// The lines of a text: split at line breaks, each line's trailing
/// carriage return removed, and no empty final piece after a trailing
/// line break.
pub open spec fn spec_split_lines(s: Seq<char>) -> Seq<Seq<char>>
    decreases s.len(),
    via spec_split_lines_dec
{
    if s.len() == 0 {
        Seq::empty()
    } else {
        let j = first_nl(s);
        if j == s.len() {
            seq![s]
        } else {
            seq![trim_cr(s.take(j))] + spec_split_lines(s.skip(j + 1))
        }
    }
}

#[via_fn]
proof fn spec_split_lines_dec(s: Seq<char>) {
    lemma_first_nl_bounds(s);
}

/// Split a text into its lines.
pub fn split_lines(s: &str) -> (r: Vec<String>)
    ensures
        r.deep_view() == spec_split_lines(s@),
{
    let chars = chars_of(s);
    let ghost all = s@;
    let n = chars.len();
    let mut r: Vec<String> = Vec::new();
    proof {
        crate::deep_view_util::lemma_deep_view_empty(r);
        assert(all.skip(0) =~= all);
    }
    let mut p: usize = 0;
    while p < n
        invariant
            p <= n,
            n == chars@.len(),
            chars@ == all,
            spec_split_lines(all) == r.deep_view() + spec_split_lines(all.skip(p as int)),
        decreases n - p,
    {
        let start = p;
        let mut q = p;
        let mut line: Vec<char> = Vec::new();
        while q < n && chars[q] != '\n'
            invariant
                start <= q <= n,
                n == chars@.len(),
                chars@ == all,
                line@ == all.subrange(start as int, q as int),
                forall|k: int| start <= k < q ==> #[trigger] all[k] != '\n',
            decreases n - q,
        {
            line.push(chars[q]);
            proof {
                assert(all.subrange(start as int, q + 1 as int) =~= all.subrange(
                    start as int,
                    q as int,
                ).push(all[q as int]));
            }
            q += 1;
        }
        let ghost tail = all.skip(start as int);
        proof {
            assert(forall|k: int| 0 <= k < q - start ==> tail[k] == #[trigger] all[k + start as int]);
            if q < n {
                assert(tail[q - start as int] == all[q as int]);
            }
            lemma_first_nl_at(tail, q - start as int);
            assert(tail.take(q - start as int) =~= all.subrange(start as int, q as int));
        }
        if q == n {
            // Final line without a terminating break: kept whole.
            let piece = string_of(&line);
            let ghost r0 = r;
            let ghost piecev = piece;
            r.push(piece);
            proof {
                crate::deep_view_util::lemma_deep_view_push(r0, r, piecev);
                assert(tail =~= all.subrange(start as int, n as int));
                assert(spec_split_lines(tail) =~= seq![tail]);
                assert(r.deep_view() + spec_split_lines(all.skip(n as int)) =~= r0.deep_view()
                    + spec_split_lines(tail));
            }
            p = n;
        } else {
            if line.len() > 0 && line[line.len() - 1] == '\r' {
                line.pop();
                proof {
                    assert(line@ =~= trim_cr(all.subrange(start as int, q as int)));
                }
            }
            let piece = string_of(&line);
            let ghost r0 = r;
            let ghost piecev = piece;
            r.push(piece);
            proof {
                crate::deep_view_util::lemma_deep_view_push(r0, r, piecev);
                assert(tail.skip(q - start as int + 1) =~= all.skip(q + 1 as int));
                assert(r0.deep_view() + (seq![trim_cr(tail.take(q - start as int))]
                    + spec_split_lines(all.skip(q + 1 as int))) =~= r.deep_view()
                    + spec_split_lines(all.skip(q + 1 as int)));
            }
            p = q + 1;
        }
    }
    proof {
        assert(all.skip(n as int) =~= Seq::<char>::empty());
    }
    r
}

/// A text has no more lines than characters.
pub proof fn lemma_split_lines_count(s: Seq<char>)
    ensures
        spec_split_lines(s).len() <= s.len(),
    decreases s.len(),
{
    if s.len() == 0 {
    } else {
        lemma_first_nl_bounds(s);
        let j = first_nl(s);
        if j == s.len() {
        } else {
            lemma_split_lines_count(s.skip(j + 1));
        }
    }
}

/// The line without its leading whitespace.
pub fn trim_start_ws(s: &str) -> (r: String)
    ensures
        r@ == s@.skip(first_non_ws(s@)),
{
    let chars = chars_of(s);
    let n = chars.len();
    let mut i: usize = 0;
    while i < n && is_ws_exec(chars[i])
        invariant
            i <= n,
            n == chars@.len(),
            chars@ == s@,
            forall|k: int| 0 <= k < i ==> is_ws(#[trigger] s@[k]),
        decreases n - i,
    {
        i += 1;
    }
    proof {
        lemma_first_non_ws_at(s@, i as int);
        assert(s@.subrange(i as int, n as int) =~= s@.skip(i as int));
    }
    let tail = s.substring_char(i, n);
    String::from_str(tail)
}

/// The index of the first non-whitespace character, or the length.
pub open spec fn first_non_ws(s: Seq<char>) -> int
    decreases s.len(),
{
    if s.len() == 0 {
        0
    } else if !is_ws(s[0]) {
        0
    } else {
        1 + first_non_ws(s.drop_first())
    }
}

/// If everything before `j` is whitespace and `j` is the end or not
/// whitespace, the first non-whitespace is at `j`.
pub proof fn lemma_first_non_ws_at(s: Seq<char>, j: int)
    requires
        0 <= j <= s.len(),
        forall|k: int| 0 <= k < j ==> is_ws(#[trigger] s[k]),
        j == s.len() || !is_ws(s[j]),
    ensures
        first_non_ws(s) == j,
    decreases j,
{
    if s.len() == 0 {
    } else if j == 0 {
    } else {
        assert(is_ws(s[0]));
        assert(forall|k: int| 0 <= k < j - 1 ==> s.drop_first()[k] == #[trigger] s[k + 1]);
        lemma_first_non_ws_at(s.drop_first(), j - 1);
    }
}

/// The character of one decimal digit.
pub open spec fn digit_char(d: int) -> char {
    if d == 0 {
        '0'
    } else if d == 1 {
        '1'
    } else if d == 2 {
        '2'
    } else if d == 3 {
        '3'
    } else if d == 4 {
        '4'
    } else if d == 5 {
        '5'
    } else if d == 6 {
        '6'
    } else if d == 7 {
        '7'
    } else if d == 8 {
        '8'
    } else {
        '9'
    }
}

/// The decimal digits of a number, most significant first.
pub open spec fn spec_decimal(n: nat) -> Seq<char>
    decreases n,
{
    if n < 10 {
        seq![digit_char(n as int)]
    } else {
        spec_decimal(n / 10).push(digit_char((n % 10) as int))
    }
}

/// The character of one decimal digit.
fn digit_of(d: usize) -> (r: char)
    requires
        d < 10,
    ensures
        r == digit_char(d as int),
{
    if d == 0 {
        '0'
    } else if d == 1 {
        '1'
    } else if d == 2 {
        '2'
    } else if d == 3 {
        '3'
    } else if d == 4 {
        '4'
    } else if d == 5 {
        '5'
    } else if d == 6 {
        '6'
    } else if d == 7 {
        '7'
    } else if d == 8 {
        '8'
    } else {
        '9'
    }
}

/// The number written in decimal.
pub fn usize_to_string(n: usize) -> (r: String)
    ensures
        r@ == spec_decimal(n as nat),
    decreases n,
{
    if n < 10 {
        let mut s = String::new();
        s.push(digit_of(n));
        proof {
            assert(s@ =~= spec_decimal(n as nat));
        }
        s
    } else {
        let mut s = usize_to_string(n / 10);
        s.push(digit_of(n % 10));
        s
    }
}

/// The pieces joined with the separator between each adjacent pair.
pub open spec fn spec_join(pieces: Seq<Seq<char>>, sep: Seq<char>) -> Seq<char>
    decreases pieces.len(),
{
    if pieces.len() == 0 {
        Seq::empty()
    } else if pieces.len() == 1 {
        pieces[0]
    } else {
        pieces[0] + sep + spec_join(pieces.drop_first(), sep)
    }
}

/// Join strings with a separator between each adjacent pair.
pub fn join_with(pieces: &Vec<String>, sep: &str) -> (r: String)
    ensures
        r@ == spec_join(pieces.deep_view(), sep@),
{
    let ghost all = pieces.deep_view();
    let mut r = String::new();
    let n = pieces.len();
    if n == 0 {
        return r;
    }
    r.append(pieces[0].as_str());
    let mut i: usize = 1;
    while i < n
        invariant
            1 <= i <= n,
            n == pieces@.len(),
            all == pieces.deep_view(),
            r@ == spec_join(all.take(i as int), sep@),
        decreases n - i,
    {
        r.append(sep);
        r.append(pieces[i].as_str());
        proof {
            lemma_join_snoc(all.take(i as int), all[i as int], sep@);
            assert(all.take(i + 1 as int) =~= all.take(i as int).push(all[i as int]));
        }
        i += 1;
    }
    proof {
        assert(all.take(n as int) =~= all);
    }
    r
}

/// Joining one more piece appends a separator and the piece.
proof fn lemma_join_snoc(pieces: Seq<Seq<char>>, piece: Seq<char>, sep: Seq<char>)
    requires
        pieces.len() >= 1,
    ensures
        spec_join(pieces.push(piece), sep) == spec_join(pieces, sep) + sep + piece,
    decreases pieces.len(),
{
    reveal_with_fuel(spec_join, 3);
    let whole = pieces.push(piece);
    if pieces.len() == 1 {
        assert(whole[0] == pieces[0]);
        assert(whole.drop_first() =~= seq![piece]);
        assert(spec_join(whole, sep) =~= spec_join(pieces, sep) + sep + piece);
    } else {
        assert(whole[0] == pieces[0]);
        assert(whole.drop_first() =~= pieces.drop_first().push(piece));
        lemma_join_snoc(pieces.drop_first(), piece, sep);
        assert(spec_join(whole, sep) =~= spec_join(pieces, sep) + sep + piece);
    }
}

/// The sequence with every non-overlapping occurrence of `from`
/// replaced by `to`, scanning left to right.
pub open spec fn spec_replace_all(s: Seq<char>, from: Seq<char>, to: Seq<char>) -> Seq<char>
    decreases s.len(),
    when from.len() > 0
{
    if s.len() < from.len() {
        s
    } else if from.is_prefix_of(s) {
        to + spec_replace_all(s.skip(from.len() as int), from, to)
    } else {
        seq![s[0]] + spec_replace_all(s.drop_first(), from, to)
    }
}

/// Replace every non-overlapping occurrence of `from` with `to`,
/// scanning left to right.
pub fn replace_all(s: &str, from: &str, to: &str) -> (r: String)
    requires
        from@.len() > 0,
    ensures
        r@ == spec_replace_all(s@, from@, to@),
{
    let chars = chars_of(s);
    let from_chars = chars_of(from);
    let ghost all = s@;
    let n = chars.len();
    let m = from_chars.len();
    let mut out = String::new();
    proof {
        assert(all.skip(0) =~= all);
    }
    let mut p: usize = 0;
    while p < n
        invariant
            p <= n,
            n == chars@.len(),
            m == from@.len(),
            m >= 1,
            chars@ == all,
            from_chars@ == from@,
            spec_replace_all(all, from@, to@) == out@ + spec_replace_all(
                all.skip(p as int),
                from@,
                to@,
            ),
        decreases n - p,
    {
        let fits = m <= n - p;
        let matched = if fits {
            match_at(&chars, &from_chars, p)
        } else {
            false
        };
        proof {
            if fits {
                assert(all.skip(p as int).subrange(0, m as int) =~= all.subrange(
                    p as int,
                    p as int + m as int,
                ));
                if matched {
                    assert(from@.is_prefix_of(all.skip(p as int)));
                } else {
                    assert(!from@.is_prefix_of(all.skip(p as int)));
                }
            }
        }
        if matched {
            let ghost out0 = out@;
            out.append(to);
            proof {
                assert(all.skip(p as int).skip(m as int) =~= all.skip(p as int + m as int));
                assert(out0 + (to@ + spec_replace_all(all.skip(p as int + m as int), from@, to@))
                    =~= out@ + spec_replace_all(all.skip(p as int + m as int), from@, to@));
            }
            p += m;
        } else {
            let ghost out0 = out@;
            proof {
                assert(all.skip(p as int).drop_first() =~= all.skip(p as int + 1));
                assert(all.skip(p as int)[0] == all[p as int]);
            }
            out.push(chars[p]);
            proof {
                assert(out0 + (seq![all[p as int]] + spec_replace_all(
                    all.skip(p as int + 1),
                    from@,
                    to@,
                )) =~= out@ + spec_replace_all(all.skip(p as int + 1), from@, to@));
                if !fits {
                    assert(all.skip(p as int).len() < m);
                    assert(spec_replace_all(all.skip(p as int), from@, to@) == all.skip(p as int));
                    assert(spec_replace_all(all.skip(p as int + 1), from@, to@) == all.skip(
                        p as int + 1,
                    ));
                    assert(all.skip(p as int) =~= seq![all[p as int]] + all.skip(p as int + 1));
                }
            }
            p += 1;
        }
    }
    proof {
        assert(all.skip(n as int) =~= Seq::<char>::empty());
    }
    out
}

/// Whether `needle` occurs in `chars` starting at `at`.
fn match_at(chars: &Vec<char>, needle: &Vec<char>, at: usize) -> (r: bool)
    requires
        at + needle@.len() <= chars@.len(),
    ensures
        r == (needle@ == chars@.subrange(at as int, at as int + needle@.len())),
{
    let m = needle.len();
    let total = chars.len();
    let mut k: usize = 0;
    while k < m
        invariant
            k <= m,
            m == needle@.len(),
            total == chars@.len(),
            at + m <= chars@.len(),
            forall|j: int| 0 <= j < k ==> #[trigger] needle@[j] == chars@[at + j],
        decreases m - k,
    {
        if chars[at + k] != needle[k] {
            proof {
                assert(chars@.subrange(at as int, at as int + m as int)[k as int] == chars@[
                    at as int + k as int]);
                assert(needle@ != chars@.subrange(at as int, at as int + m as int));
            }
            return false;
        }
        k += 1;
    }
    proof {
        assert(needle@ =~= chars@.subrange(at as int, at as int + m as int));
    }
    true
}

/// The characters of a string collected into a vector.
pub fn chars_of(s: &str) -> (r: Vec<char>)
    ensures
        r@ == s@,
{
    let n = s.unicode_len();
    let mut r: Vec<char> = Vec::new();
    let mut i: usize = 0;
    while i < n
        invariant
            i <= n,
            n == s@.len(),
            r@ == s@.take(i as int),
        decreases n - i,
    {
        r.push(s.get_char(i));
        proof {
            assert(s@.take(i + 1 as int) =~= s@.take(i as int).push(s@[i as int]));
        }
        i += 1;
    }
    proof {
        assert(s@.take(n as int) =~= s@);
    }
    r
}

/// The characters of a vector collected back into a string.
pub fn string_of(chars: &Vec<char>) -> (r: String)
    ensures
        r@ == chars@,
{
    let mut r = String::new();
    let mut i: usize = 0;
    while i < chars.len()
        invariant
            i <= chars@.len(),
            r@ == chars@.take(i as int),
        decreases chars@.len() - i,
    {
        r.push(chars[i]);
        proof {
            assert(chars@.take(i + 1 as int) =~= chars@.take(i as int).push(chars@[i as int]));
        }
        i += 1;
    }
    proof {
        assert(chars@.take(chars@.len() as int) =~= chars@);
    }
    r
}

} // verus!
