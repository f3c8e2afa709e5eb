//! What holds of every parse: theorems about the markup grammar.

use crate::models::content::{
    lemma_models_text_concat, lemma_models_text_push, model_text, models_text, SpanModel,
};
use crate::parser::grammar::{
    closes_at, construct_at, divider_at, divider_is_bare, equals_run, mention_at,
    parse, parse_spans, plain_run, prepend, sticker_at, tag_at, tag_parts, with_newlines,
    Construct, Outcome, MAX_DEPTH,
};
use crate::text::{
    find_char, find_seq, has_prefix_at, lemma_find_char, lemma_find_seq, replaced, replaced_from,
};
use vstd::prelude::*;

verus! {

/// A text is free of markup when it holds no `[` and no run of six `=`.
/// Line-break markers may occur in it.
pub open spec fn markup_free(s: Seq<char>) -> bool {
    &&& forall|i: int| 0 <= i < s.len() ==> s[i] != '['
    &&& forall|i: int| 0 <= i <= s.len() ==> equals_run(s, i) < 6
}

/// The first occurrence of `pat` at or after `i` is at `k` when `pat`
/// occurs there and nowhere from `i` up to `k`.
pub proof fn lemma_find_seq_first(s: Seq<char>, pat: Seq<char>, i: int, k: int)
    requires
        0 <= i <= k,
        has_prefix_at(s, k, pat),
        forall|j: int| i <= j < k ==> !has_prefix_at(s, j, pat),
    ensures
        find_seq(s, pat, i) == Some(k),
{
    lemma_find_seq(s, pat, i);
}

/// There is no occurrence of `pat` at or after `i` when it occurs nowhere
/// from `i` on.
pub proof fn lemma_find_seq_none(s: Seq<char>, pat: Seq<char>, i: int)
    requires
        0 <= i,
        forall|j: int| i <= j ==> !has_prefix_at(s, j, pat),
    ensures
        find_seq(s, pat, i) is None,
{
    lemma_find_seq(s, pat, i);
}

/// The text of a pending plain run is the run itself.
pub proof fn lemma_plain_run_text(s: Seq<char>, a: int, b: int)
    requires
        0 <= a <= b <= s.len(),
    ensures
        models_text(plain_run(s, a, b)) == s.subrange(a, b),
{
    if a < b {
        let m = SpanModel::Plain(s.subrange(a, b));
        lemma_models_text_push(Seq::empty(), m);
        assert(Seq::<SpanModel>::empty().push(m) =~= seq![m]);
        assert(Seq::<char>::empty() + s.subrange(a, b) =~= s.subrange(a, b));
    } else {
        assert(s.subrange(a, b) =~= Seq::<char>::empty());
    }
}

/// Where the next character is no `[`, only a line-break marker can start.
pub proof fn lemma_construct_without_bracket(s: Seq<char>, pos: int)
    requires
        0 <= pos < s.len(),
        s[pos] != '[',
        equals_run(s, pos) < 6,
    ensures
        construct_at(s, pos, 0) == if has_prefix_at(s, pos, "<br/>"@) {
            Construct::Found { span: SpanModel::LineBreak, next: pos + 5 }
        } else {
            Construct::Absent
        },
{
    reveal_strlit("<br/>");
    reveal_strlit("[stripbr]");
    reveal_strlit("[s:");
    reveal_strlit("[@");
    reveal_strlit("[");
    if has_prefix_at(s, pos, "[stripbr]"@) {
        assert(s.subrange(pos, pos + 9)[0] == '[');
    }
    if has_prefix_at(s, pos, "[s:"@) {
        assert(s.subrange(pos, pos + 3)[0] == '[');
    }
    if has_prefix_at(s, pos, "[@"@) {
        assert(s.subrange(pos, pos + 2)[0] == '[');
    }
    if has_prefix_at(s, pos, "["@) {
        assert(s.subrange(pos, pos + 1)[0] == '[');
    }
    assert(divider_at(s, pos, 0) is Absent);
    assert(sticker_at(s, pos) is None);
    assert(mention_at(s, pos) is None);
    assert(tag_at(s, pos, 0) is Absent);
}

/// Reading markup-free text from `pos`, with the plain run since
/// `plain_start` pending, uses up the input and gives spans whose text is
/// the input from `plain_start` on with every marker a newline.
pub proof fn lemma_markup_free_from(s: Seq<char>, pos: int, plain_start: int)
    requires
        markup_free(s),
        0 <= plain_start <= pos <= s.len(),
        forall|j: int| plain_start <= j < pos ==> !has_prefix_at(s, j, "<br/>"@),
    ensures
        parse_spans(s, pos, plain_start, None, 0) matches Outcome::Parsed { spans, next } && next
            == s.len() && models_text(spans) == replaced_from(
            s,
            "<br/>"@,
            seq!['\n'],
            plain_start,
        ),
    decreases s.len() - pos,
{
    reveal_strlit("<br/>");
    let br = "<br/>"@;
    let nl = seq!['\n'];
    if pos >= s.len() {
        lemma_plain_run_text(s, plain_start, pos);
        assert forall|j: int| plain_start <= j implies !has_prefix_at(s, j, br) by {}
        lemma_find_seq_none(s, br, plain_start);
    } else {
        lemma_construct_without_bracket(s, pos);
        if has_prefix_at(s, pos, br) {
            lemma_markup_free_from(s, pos + 5, pos + 5);
            lemma_find_seq_first(s, br, plain_start, pos);
            let head = plain_run(s, plain_start, pos).push(SpanModel::LineBreak);
            let rest = parse_spans(s, pos + 5, pos + 5, None, 0);
            assert(parse_spans(s, pos, plain_start, None, 0) == prepend(head, rest));
            let tail = rest->spans;
            lemma_models_text_concat(head, tail);
            lemma_models_text_push(plain_run(s, plain_start, pos), SpanModel::LineBreak);
            lemma_plain_run_text(s, plain_start, pos);
            assert(model_text(SpanModel::LineBreak) =~= nl);
            assert(replaced_from(s, br, nl, plain_start) == s.subrange(plain_start, pos) + nl
                + replaced_from(s, br, nl, pos + 5));
        } else {
            lemma_markup_free_from(s, pos + 1, plain_start);
        }
    }
}

/// Text round trip. The plain text of what markup-free content parses to is
/// the content itself, its line-break markers read as newlines: parsing
/// loses no character of the text.
pub proof fn lemma_markup_free_projection(s: Seq<char>)
    requires
        markup_free(s),
    ensures
        parse(s) matches Outcome::Parsed { spans, next } && next == s.len() && models_text(spans)
            == with_newlines(s),
{
    lemma_markup_free_from(s, 0, 0);
}

/// A run of `=` lies within the input.
pub proof fn lemma_equals_run(s: Seq<char>, pos: int)
    requires
        0 <= pos <= s.len(),
    ensures
        0 <= equals_run(s, pos) <= s.len() - pos,
        forall|j: int| pos <= j < pos + equals_run(s, pos) ==> s[j] == '=',
        pos + equals_run(s, pos) < s.len() ==> s[pos + equals_run(s, pos)] != '=',
    decreases s.len() - pos,
{
    if pos < s.len() && s[pos] == '=' {
        lemma_equals_run(s, pos + 1);
    }
}

/// A divider ends after the position at which it starts, within the input.
pub proof fn lemma_divider_advances(s: Seq<char>, pos: int, depth: nat)
    requires
        0 <= pos <= s.len(),
    ensures
        divider_at(s, pos, depth) matches Construct::Found { next, .. } ==> pos < next
            <= s.len(),
{
    reveal_strlit("===");
    lemma_equals_run(s, pos);
    let n = equals_run(s, pos);
    if n >= 6 && !divider_is_bare(s, pos + n) {
        lemma_find_seq(s, "==="@, pos + n);
        match find_seq(s, "==="@, pos + n) {
            Some(k) => {
                lemma_equals_run(s, k);
            },
            None => {},
        }
    }
}

/// A tag with its content ends after the position at which it starts,
/// within the input.
pub proof fn lemma_tag_advances(s: Seq<char>, pos: int, depth: nat)
    requires
        0 <= pos <= s.len(),
    ensures
        tag_at(s, pos, depth) matches Construct::Found { next, .. } ==> pos < next <= s.len(),
    decreases s.len() - pos, 0nat,
{
    if has_prefix_at(s, pos, "["@) && !has_prefix_at(s, pos, "[/"@) {
        lemma_find_char(s, ']', pos + 1);
        match find_char(s, ']', pos + 1) {
            Some(end) => {
                let parts = tag_parts(s.subrange(pos + 1, end));
                if parts.name.len() > 0 && depth < MAX_DEPTH {
                    lemma_spans_advance(s, end + 1, end + 1, Some(parts.name), depth + 1);
                }
            },
            None => {},
        }
    }
}

/// Every construct ends after the position at which it starts, within the
/// input: reading always makes progress.
pub proof fn lemma_construct_advances(s: Seq<char>, pos: int, depth: nat)
    requires
        0 <= pos <= s.len(),
    ensures
        construct_at(s, pos, depth) matches Construct::Found { next, .. } ==> pos < next
            <= s.len(),
    decreases s.len() - pos, 1nat,
{
    reveal_strlit("<br/>");
    reveal_strlit("[stripbr]");
    reveal_strlit("[s:");
    reveal_strlit("[@");
    lemma_divider_advances(s, pos, depth);
    lemma_find_char(s, ']', pos + 3);
    lemma_find_char(s, ']', pos + 2);
    lemma_tag_advances(s, pos, depth);
}

/// Reading spans ends at or after the position at which it starts, within
/// the input.
pub proof fn lemma_spans_advance(
    s: Seq<char>,
    pos: int,
    plain_start: int,
    close: Option<Seq<char>>,
    depth: nat,
)
    requires
        0 <= pos <= s.len(),
    ensures
        parse_spans(s, pos, plain_start, close, depth) matches Outcome::Parsed { next, .. } ==> pos
            <= next <= s.len(),
    decreases s.len() - pos, 2nat,
{
    if pos < s.len() && !(close is Some && closes_at(s, pos, close->0)) {
        lemma_construct_advances(s, pos, depth);
        match construct_at(s, pos, depth) {
            Construct::Found { span, next } => {
                lemma_spans_advance(s, next, next, close, depth);
            },
            Construct::Absent => {
                lemma_spans_advance(s, pos + 1, plain_start, close, depth);
            },
            Construct::TooDeep => {},
        }
    }
}

/// Whether the marker for a line break occurs nowhere in `s`.
pub open spec fn marker_free(s: Seq<char>) -> bool {
    forall|j: int| !has_prefix_at(s, j, "<br/>"@)
}

/// Whether `s` holds nowhere six `=` in a row.
pub open spec fn no_six_equals(s: Seq<char>) -> bool {
    forall|i: int|
        0 <= i && i + 6 <= s.len() ==> !(s[i] == '=' && s[i + 1] == '=' && s[i + 2] == '=' && s[i
            + 3] == '=' && s[i + 4] == '=' && #[trigger] s[i + 5] == '=')
}

/// Whether `s` holds no `[`.
pub open spec fn no_bracket(s: Seq<char>) -> bool {
    forall|i: int| 0 <= i < s.len() ==> s[i] != '['
}

/// Text without `[` and without six `=` in a row is free of markup.
pub proof fn lemma_markup_free(s: Seq<char>)
    requires
        no_bracket(s),
        no_six_equals(s),
    ensures
        markup_free(s),
{
    assert forall|i: int| 0 <= i <= s.len() implies equals_run(s, i) < 6 by {
        lemma_equals_run(s, i);
        if equals_run(s, i) >= 6 {
            assert(s[i + 0] == '=' && s[i + 1] == '=' && s[i + 2] == '=' && s[i + 3] == '=' && s[i
                + 4] == '=' && s[i + 5] == '=');
        }
    }
}

/// An occurrence in the second part of a concatenation is an occurrence
/// in that part alone.
pub proof fn lemma_prefix_shift(a: Seq<char>, y: Seq<char>, pat: Seq<char>, m: int)
    requires
        0 <= m,
    ensures
        has_prefix_at(a + y, a.len() + m, pat) <==> has_prefix_at(y, m, pat),
{
    if m + pat.len() <= y.len() {
        assert((a + y).subrange(a.len() + m, a.len() + m + pat.len()) =~= y.subrange(
            m,
            m + pat.len(),
        ));
    }
}

/// Searching the second part of a concatenation finds what searching
/// that part alone finds.
pub proof fn lemma_find_shift(a: Seq<char>, y: Seq<char>, pat: Seq<char>, j: int)
    requires
        0 <= j,
    ensures
        find_seq(a + y, pat, a.len() + j) == match find_seq(y, pat, j) {
            Some(k) => Some(a.len() + k),
            None => None,
        },
    decreases y.len() + 1 - j,
{
    lemma_prefix_shift(a, y, pat, j);
    if j + pat.len() <= y.len() && !has_prefix_at(y, j, pat) {
        lemma_find_shift(a, y, pat, j + 1);
    }
}

/// Replacing in the second part of a concatenation is replacing in that
/// part alone.
pub proof fn lemma_replaced_shift(
    a: Seq<char>,
    y: Seq<char>,
    pat: Seq<char>,
    rep: Seq<char>,
    j: int,
)
    requires
        0 <= j <= y.len(),
        pat.len() > 0,
    ensures
        replaced_from(a + y, pat, rep, a.len() + j) == replaced_from(y, pat, rep, j),
    decreases y.len() - j,
{
    lemma_find_shift(a, y, pat, j);
    lemma_find_seq(y, pat, j);
    match find_seq(y, pat, j) {
        Some(k) => {
            lemma_replaced_shift(a, y, pat, rep, k + pat.len());
            assert((a + y).subrange(a.len() + j, a.len() + k) =~= y.subrange(j, k));
        },
        None => {
            assert((a + y).subrange(a.len() + j, (a + y).len() as int) =~= y.subrange(
                j,
                y.len() as int,
            ));
        },
    }
}

/// Writing the newlines of `d[i..]` as markers: the text up to the first
/// newline, the marker, and the rest likewise.
pub proof fn lemma_markers_unfold(d: Seq<char>, i: int)
    requires
        0 <= i <= d.len(),
    ensures
        match find_seq(d, seq!['\n'], i) {
            Some(k) => i <= k < d.len() && d[k] == '\n' && (forall|j: int|
                i <= j < k ==> d[j] != '\n') && replaced_from(d, seq!['\n'], "<br/>"@, i)
                == d.subrange(i, k) + "<br/>"@ + replaced_from(d, seq!['\n'], "<br/>"@, k + 1),
            None => (forall|j: int| i <= j < d.len() ==> d[j] != '\n') && replaced_from(
                d,
                seq!['\n'],
                "<br/>"@,
                i,
            ) == d.subrange(i, d.len() as int),
        },
{
    let nl = seq!['\n'];
    lemma_find_seq(d, nl, i);
    match find_seq(d, nl, i) {
        Some(k) => {
            assert(d.subrange(k, k + 1)[0] == nl[0]);
            assert forall|j: int| i <= j < k implies d[j] != '\n' by {
                if d[j] == '\n' {
                    assert(d.subrange(j, j + 1) =~= nl);
                    assert(has_prefix_at(d, j, nl));
                }
            }
        },
        None => {
            assert forall|j: int| i <= j < d.len() implies d[j] != '\n' by {
                if d[j] == '\n' {
                    assert(d.subrange(j, j + 1) =~= nl);
                    assert(has_prefix_at(d, j, nl));
                }
            }
        },
    }
}

/// Writing newlines as markers adds no `[` and no six `=` in a row.
pub proof fn lemma_markers_keep_clean(d: Seq<char>, i: int)
    requires
        0 <= i <= d.len(),
        no_bracket(d),
        no_six_equals(d),
    ensures
        no_bracket(replaced_from(d, seq!['\n'], "<br/>"@, i)),
        no_six_equals(replaced_from(d, seq!['\n'], "<br/>"@, i)),
    decreases d.len() - i,
{
    reveal_strlit("<br/>");
    let br = "<br/>"@;
    let x = replaced_from(d, seq!['\n'], br, i);
    lemma_markers_unfold(d, i);
    match find_seq(d, seq!['\n'], i) {
        Some(k) => {
            lemma_markers_keep_clean(d, k + 1);
            let p = d.subrange(i, k);
            let y = replaced_from(d, seq!['\n'], br, k + 1);
            assert(x == p + br + y);
            assert forall|t: int| 0 <= t < x.len() implies x[t] != '[' by {
                if t < p.len() {
                    assert(x[t] == d[i + t]);
                } else if t < p.len() + 5 {
                    assert(x[t] == br[t - p.len()]);
                } else {
                    assert(x[t] == y[t - p.len() - 5]);
                }
            }
            assert forall|t: int| 0 <= t && t + 6 <= x.len() implies !(x[t] == '=' && x[t + 1]
                == '=' && x[t + 2] == '=' && x[t + 3] == '=' && x[t + 4] == '=' && #[trigger] x[t
                + 5] == '=') by {
                if t + 6 <= p.len() {
                    assert(x[t] == d[i + t] && x[t + 1] == d[i + t + 1] && x[t + 2] == d[i + t + 2]
                        && x[t + 3] == d[i + t + 3] && x[t + 4] == d[i + t + 4] && x[t + 5] == d[i
                        + t + 5]);
                    assert(!(d[i + t] == '=' && d[i + t + 1] == '=' && d[i + t + 2] == '=' && d[i
                        + t + 3] == '=' && d[i + t + 4] == '=' && d[i + t + 5] == '='));
                } else if t >= p.len() + 5 {
                    let u = t - p.len() - 5;
                    assert(x[t] == y[u] && x[t + 1] == y[u + 1] && x[t + 2] == y[u + 2] && x[t + 3]
                        == y[u + 3] && x[t + 4] == y[u + 4] && x[t + 5] == y[u + 5]);
                    assert(!(y[u] == '=' && y[u + 1] == '=' && y[u + 2] == '=' && y[u + 3] == '='
                        && y[u + 4] == '=' && y[u + 5] == '='));
                } else {
                    let w = if t >= p.len() {
                        t
                    } else {
                        p.len() as int
                    };
                    assert(x[w] == br[w - p.len()]);
                    assert(x[w] != '=');
                }
            }
        },
        None => {
            assert forall|t: int| 0 <= t < x.len() implies x[t] != '[' by {
                assert(x[t] == d[i + t]);
            }
            assert forall|t: int| 0 <= t && t + 6 <= x.len() implies !(x[t] == '=' && x[t + 1]
                == '=' && x[t + 2] == '=' && x[t + 3] == '=' && x[t + 4] == '=' && #[trigger] x[t
                + 5] == '=') by {
                assert(x[t] == d[i + t] && x[t + 1] == d[i + t + 1] && x[t + 2] == d[i + t + 2]
                    && x[t + 3] == d[i + t + 3] && x[t + 4] == d[i + t + 4] && x[t + 5] == d[i + t
                    + 5]);
                assert(!(d[i + t] == '=' && d[i + t + 1] == '=' && d[i + t + 2] == '=' && d[i + t
                    + 3] == '=' && d[i + t + 4] == '=' && d[i + t + 5] == '='));
            }
        },
    }
}

/// Markers read back as the newlines that they were written for: in text
/// that held no marker of its own, writing every newline as a marker and
/// then every marker as a newline gives the text back.
pub proof fn lemma_newlines_restored_from(d: Seq<char>, i: int)
    requires
        0 <= i <= d.len(),
        marker_free(d),
    ensures
        replaced(replaced_from(d, seq!['\n'], "<br/>"@, i), "<br/>"@, seq!['\n']) == d.subrange(
            i,
            d.len() as int,
        ),
    decreases d.len() - i,
{
    reveal_strlit("<br/>");
    let br = "<br/>"@;
    let nl = seq!['\n'];
    let x = replaced_from(d, nl, br, i);
    lemma_markers_unfold(d, i);
    match find_seq(d, nl, i) {
        Some(k) => {
            let p = d.subrange(i, k);
            let y = replaced_from(d, nl, br, k + 1);
            lemma_newlines_restored_from(d, k + 1);
            assert(x == p + br + y);
            assert(has_prefix_at(x, p.len() as int, br)) by {
                assert(x.subrange(p.len() as int, p.len() as int + 5) =~= br);
            }
            assert forall|j: int| 0 <= j < p.len() implies !has_prefix_at(x, j, br) by {
                if has_prefix_at(x, j, br) {
                    let w = x.subrange(j, j + 5);
                    if j + 5 <= p.len() {
                        assert(d.subrange(i + j, i + j + 5) =~= w);
                        assert(has_prefix_at(d, i + j, br));
                    } else {
                        let t = p.len() - j;
                        assert(w[t] == x[p.len() as int]);
                        assert(x[p.len() as int] == br[0]);
                    }
                }
            }
            lemma_find_seq_first(x, br, 0, p.len() as int);
            lemma_replaced_shift(p + br, y, br, nl, 0);
            assert(x.subrange(0, p.len() as int) =~= p);
            assert(replaced_from(x, br, nl, 0) == p + nl + replaced_from(
                x,
                br,
                nl,
                p.len() as int + 5,
            ));
            assert(p + nl + d.subrange(k + 1, d.len() as int) =~= d.subrange(i, d.len() as int));
        },
        None => {
            assert forall|j: int| 0 <= j implies !has_prefix_at(x, j, br) by {
                if has_prefix_at(x, j, br) {
                    assert(d.subrange(i + j, i + j + 5) =~= x.subrange(j, j + 5));
                    assert(has_prefix_at(d, i + j, br));
                }
            }
            lemma_find_seq_none(x, br, 0);
            assert(x.subrange(0, x.len() as int) =~= x);
        },
    }
}

/// Whether text is text only: it holds no `[`, no six `=` in a row and no
/// marker for a line break.
pub open spec fn is_text_only(d: Seq<char>) -> bool {
    no_bracket(d) && no_six_equals(d) && marker_free(d)
}

/// Text round trip with newlines. Content that is text only parses, once
/// its newlines are written as markers, to spans whose plain text is the
/// content itself, newlines included.
pub proof fn lemma_text_round_trip(d: Seq<char>)
    requires
        is_text_only(d),
    ensures
        parse(replaced(d, seq!['\n'], "<br/>"@)) matches Outcome::Parsed { spans, next }
            && models_text(spans) == d,
{
    let x = replaced(d, seq!['\n'], "<br/>"@);
    lemma_markers_keep_clean(d, 0);
    lemma_markup_free(x);
    lemma_markup_free_projection(x);
    lemma_newlines_restored_from(d, 0);
    assert(d.subrange(0, d.len() as int) =~= d);
}

/// The number of `[` in `s` from `i` on.
pub open spec fn brackets_from(s: Seq<char>, i: int) -> nat
    decreases s.len() - i,
{
    if i < 0 || i >= s.len() {
        0
    } else if s[i] == '[' {
        1 + brackets_from(s, i + 1)
    } else {
        brackets_from(s, i + 1)
    }
}

/// A later part of the text holds no more `[` than an earlier one.
pub proof fn lemma_brackets_fewer(s: Seq<char>, i: int, j: int)
    requires
        0 <= i <= j,
    ensures
        brackets_from(s, j) <= brackets_from(s, i),
    decreases j - i,
{
    if i < j {
        lemma_brackets_fewer(s, i + 1, j);
    }
}

/// A tag is never nested too deeply where the `[` that are left, counted
/// onto the depth, stay within the limit.
pub proof fn lemma_shallow_tag(s: Seq<char>, pos: int, depth: nat)
    requires
        0 <= pos <= s.len(),
        depth + brackets_from(s, pos) <= MAX_DEPTH,
    ensures
        !(tag_at(s, pos, depth) is TooDeep),
    decreases s.len() - pos, 0nat,
{
    reveal_strlit("[");
    if has_prefix_at(s, pos, "["@) && !has_prefix_at(s, pos, "[/"@) {
        assert(s.subrange(pos, pos + 1)[0] == '[');
        lemma_find_char(s, ']', pos + 1);
        match find_char(s, ']', pos + 1) {
            Some(end) => {
                let parts = tag_parts(s.subrange(pos + 1, end));
                if parts.name.len() > 0 {
                    lemma_brackets_fewer(s, pos + 1, end + 1);
                    lemma_shallow_spans(s, end + 1, end + 1, Some(parts.name), depth + 1);
                }
            },
            None => {},
        }
    }
}

/// A part of the text holds no more `[` than the text does from where the
/// part starts.
pub proof fn lemma_brackets_within(s: Seq<char>, a: int, b: int, j: int)
    requires
        0 <= a <= b <= s.len(),
        0 <= j <= b - a,
    ensures
        brackets_from(s.subrange(a, b), j) <= brackets_from(s, a + j),
    decreases b - a - j,
{
    if j < b - a {
        lemma_brackets_within(s, a, b, j + 1);
        assert(s.subrange(a, b)[j] == s[a + j]);
    }
}

/// A divider is never nested too deeply where the `[` that are left,
/// counted onto the depth, stay within the limit.
pub proof fn lemma_shallow_divider(s: Seq<char>, pos: int, depth: nat)
    requires
        0 <= pos <= s.len(),
        depth + brackets_from(s, pos) <= MAX_DEPTH,
    ensures
        !(divider_at(s, pos, depth) is TooDeep),
    decreases s.len() - pos, 0nat,
{
    reveal_strlit("===");
    lemma_equals_run(s, pos);
    let n = equals_run(s, pos);
    if n >= 6 && !divider_is_bare(s, pos + n) {
        lemma_find_seq(s, "==="@, pos + n);
        match find_seq(s, "==="@, pos + n) {
            Some(k) => {
                lemma_brackets_within(s, pos + n, k, 0);
                lemma_brackets_fewer(s, pos, pos + n);
                lemma_shallow_spans(s.subrange(pos + n, k), 0, 0, None, depth);
            },
            None => {},
        }
    }
}

/// No construct is nested too deeply where the `[` that are left, counted
/// onto the depth, stay within the limit.
pub proof fn lemma_shallow_construct(s: Seq<char>, pos: int, depth: nat)
    requires
        0 <= pos <= s.len(),
        depth + brackets_from(s, pos) <= MAX_DEPTH,
    ensures
        !(construct_at(s, pos, depth) is TooDeep),
    decreases s.len() - pos, 1nat,
{
    lemma_shallow_divider(s, pos, depth);
    lemma_shallow_tag(s, pos, depth);
}

/// Reading succeeds where the `[` that are left, counted onto the depth,
/// stay within the limit.
pub proof fn lemma_shallow_spans(
    s: Seq<char>,
    pos: int,
    plain_start: int,
    close: Option<Seq<char>>,
    depth: nat,
)
    requires
        0 <= pos <= s.len(),
        depth + brackets_from(s, pos) <= MAX_DEPTH,
    ensures
        parse_spans(s, pos, plain_start, close, depth) is Parsed,
    decreases s.len() - pos, 2nat,
{
    if pos < s.len() && !(close is Some && closes_at(s, pos, close->0)) {
        lemma_shallow_construct(s, pos, depth);
        lemma_construct_advances(s, pos, depth);
        match construct_at(s, pos, depth) {
            Construct::Found { span, next } => {
                lemma_brackets_fewer(s, pos, next);
                lemma_shallow_spans(s, next, next, close, depth);
            },
            Construct::Absent => {
                lemma_brackets_fewer(s, pos, pos + 1);
                lemma_shallow_spans(s, pos + 1, plain_start, close, depth);
            },
            Construct::TooDeep => {},
        }
    }
}

/// Only deep nesting makes a parse fail: content with no more `[` than
/// the nesting limit always parses.
pub proof fn lemma_few_brackets_parse(s: Seq<char>)
    requires
        brackets_from(s, 0) <= MAX_DEPTH,
    ensures
        parse(s) is Parsed,
{
    lemma_shallow_spans(s, 0, 0, None, 0);
}

} // verus!
