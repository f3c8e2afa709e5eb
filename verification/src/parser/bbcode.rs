//! Recursive-descent parser for post content and subject lines.

use crate::models::content::{
    lemma_models_text_push, span_model, span_models, PostContent, Span, SpanKind, SpanModel,
};
use crate::parser::grammar::{
    closes_at, construct_at, divider_at, equals_run, line_break_at, mention_at,
    mention_span, parse_spans as spans_from, plain_run, prepend, sticker_at, tag_at, tag_parts,
    leading_tags, nonempty, normalised, parse, subject_of, trim_each,
    trim_nonempty, unescaped, with_newlines, Construct, Outcome, MAX_DEPTH,
};
use crate::parser::laws::{
    brackets_from, is_text_only, lemma_few_brackets_parse, lemma_markup_free_projection,
    lemma_text_round_trip, markup_free,
};
use crate::text::{
    chars_of, decode_html, find_char_from, find_seq_from, has_prefix_at, lemma_find_char,
    lemma_find_seq, lemma_skip_ws, lowercase, replace_all, replaced, skip_ws, slice, split_chars,
    seqs_of, string_of, strs_of, trim, trim_bounds, trimmed,
};
use vstd::prelude::*;
use vstd::string::StrSliceExecFns;

verus! {

/// Tests whether the text `pat` occurs in `input` at index `pos`.
pub fn starts_with_str(input: &Vec<char>, pos: usize, pat: &str) -> (r: bool)
    ensures
        r == has_prefix_at(input@, pos as int, pat@),
        r ==> pos + pat@.len() <= input.len(),
{
    let n = pat.unicode_len();
    if pos > input.len() || n > input.len() - pos {
        return false;
    }
    let mut k: usize = 0;
    while k < n
        invariant
            n == pat@.len(),
            pos + n <= input.len(),
            k <= n,
            input@.subrange(pos as int, pos + k) == pat@.subrange(0, k as int),
        decreases n - k,
    {
        if input[pos + k] != pat.get_char(k) {
            proof {
                let w = input@.subrange(pos as int, pos + n);
                assert(w[k as int] != pat@[k as int]);
            }
            return false;
        }
        k = k + 1;
        assert(input@.subrange(pos as int, pos + k) =~= input@.subrange(
            pos as int,
            pos + k - 1,
        ).push(input@[pos + k - 1]));
        assert(pat@.subrange(0, k as int) =~= pat@.subrange(0, k - 1).push(pat@[k - 1]));
    }
    assert(pat@.subrange(0, k as int) =~= pat@);
    true
}

/// Reads a line-break marker at `pos`; gives the position after it.
pub fn try_parse_br(input: &Vec<char>, pos: usize) -> (r: Option<usize>)
    ensures
        match r {
            Some(next) => line_break_at(input@, pos as int) == Some(next - pos) && pos < next
                <= input.len(),
            None => line_break_at(input@, pos as int) is None,
        },
{
    proof {
        reveal_strlit("<br/>");
        reveal_strlit("[stripbr]");
    }
    if starts_with_str(input, pos, "<br/>") {
        Some(pos + 5)
    } else if starts_with_str(input, pos, "[stripbr]") {
        Some(pos + 9)
    } else {
        None
    }
}

/// Counts the `=` characters that start at `pos`.
pub fn count_equals(input: &Vec<char>, pos: usize) -> (r: usize)
    requires
        pos <= input.len(),
    ensures
        r == equals_run(input@, pos as int),
        pos + r <= input.len(),
{
    let mut i: usize = pos;
    while i < input.len() && input[i] == '='
        invariant
            pos <= i <= input.len(),
            equals_run(input@, pos as int) == (i - pos) + equals_run(input@, i as int),
        decreases input.len() - i,
    {
        i = i + 1;
    }
    i - pos
}

/// Reads a sticker at `pos`.
pub fn try_parse_sticker(input: &Vec<char>, pos: usize) -> (r: Option<(Span, usize)>)
    ensures
        match r {
            Some((span, next)) => sticker_at(input@, pos as int) matches Some((name, n)) && n
                == next && span_model(span) == SpanModel::Sticker(name) && pos < next
                <= input.len(),
            None => sticker_at(input@, pos as int) is None,
        },
{
    proof {
        reveal_strlit("[s:");
    }
    if !starts_with_str(input, pos, "[s:") {
        return None;
    }
    match find_char_from(input, ']', pos + 3) {
        Some(end) => {
            proof {
                lemma_find_char(input@, ']', pos + 3);
            }
            let name = string_of(&slice(input, pos + 3, end));
            Some((Span { kind: SpanKind::Sticker { name } }, end + 1))
        },
        None => None,
    }
}

/// Reads a mention at `pos`.
pub fn try_parse_at_mention(input: &Vec<char>, pos: usize) -> (r: Option<(Span, usize)>)
    ensures
        match r {
            Some((span, next)) => mention_at(input@, pos as int) matches Some((user, n)) && n
                == next && span_model(span) == mention_span(user) && pos < next <= input.len(),
            None => mention_at(input@, pos as int) is None,
        },
{
    proof {
        reveal_strlit("[@");
    }
    if !starts_with_str(input, pos, "[@") {
        return None;
    }
    match find_char_from(input, ']', pos + 2) {
        Some(end) => {
            proof {
                lemma_find_char(input@, ']', pos + 2);
            }
            let (a, b) = trim_bounds(input, pos + 2, end);
            let user = string_of(&slice(input, a, b));
            let mut attributes: Vec<String> = Vec::new();
            attributes.push(user);
            let span = Span::tagged("at", attributes, Vec::new(), Vec::new());
            proof {
                let u = trimmed(input@.subrange(pos + 2, end as int));
                assert(strs_of(attributes@) =~= seq![u]);
                assert(strs_of(Seq::<String>::empty()) =~= Seq::<Seq<char>>::empty());
                assert(span_models(Seq::<Span>::empty()) =~= Seq::<SpanModel>::empty());
                assert(span_model(span) == mention_span(u));
            }
            Some((span, end + 1))
        },
        None => None,
    }
}

/// Trims every piece; with `keep_empty` unset, drops those that are then
/// empty.
pub fn trim_pieces(pieces: &Vec<Vec<char>>, keep_empty: bool) -> (r: Vec<String>)
    ensures
        strs_of(r@) == if keep_empty {
            trim_each(seqs_of(pieces@))
        } else {
            trim_nonempty(seqs_of(pieces@))
        },
{
    let ghost all = trim_each(seqs_of(pieces@));
    let mut out: Vec<String> = Vec::new();
    let mut i: usize = 0;
    assert(strs_of(out@) =~= all.subrange(0, 0));
    assert(nonempty(all.subrange(0, 0)) =~= Seq::<Seq<char>>::empty());
    while i < pieces.len()
        invariant
            i <= pieces.len(),
            all == trim_each(seqs_of(pieces@)),
            strs_of(out@) == if keep_empty {
                all.subrange(0, i as int)
            } else {
                nonempty(all.subrange(0, i as int))
            },
        decreases pieces.len() - i,
    {
        let ghost before = strs_of(out@);
        let t = trim(&pieces[i]);
        assert(t@ == all[i as int]);
        assert(all.subrange(0, i + 1).drop_last() =~= all.subrange(0, i as int));
        if keep_empty || t.len() > 0 {
            let st = string_of(&t);
            out.push(st);
            assert(strs_of(out@) =~= before.push(t@));
            assert(all.subrange(0, i + 1) =~= all.subrange(0, i as int).push(t@));
        }
        i = i + 1;
    }
    assert(all.subrange(0, i as int) =~= all);
    out
}

/// Splits the text between `[` and `]` into the tag's name and attributes.
pub fn parse_tag_parts(content: &Vec<char>) -> (r: (String, Vec<String>, Vec<String>))
    ensures
        r.0@ == tag_parts(content@).name,
        strs_of(r.1@) == tag_parts(content@).attributes,
        strs_of(r.2@) == tag_parts(content@).complex_attributes,
{
    let c = trim(content);
    let none: Vec<String> = Vec::new();
    assert(strs_of(none@) =~= Seq::<Seq<char>>::empty());
    match find_char_from(&c, ' ', 0) {
        Some(sp) => {
            proof {
                lemma_find_char(c@, ' ', 0);
            }
            let name = lowercase(string_of(&slice(&c, 0, sp)).as_str());
            let rest = slice(&c, sp + 1, c.len());
            let pieces = split_chars(&rest, ' ');
            let complex = trim_pieces(&pieces, false);
            (name, none, complex)
        },
        None => match find_char_from(&c, '=', 0) {
            Some(eq) => {
                proof {
                    lemma_find_char(c@, '=', 0);
                }
                let name = lowercase(string_of(&slice(&c, 0, eq)).as_str());
                let rest = slice(&c, eq + 1, c.len());
                let pieces = split_chars(&rest, ',');
                let attrs = trim_pieces(&pieces, true);
                (name, attrs, none)
            },
            None => {
                let name = lowercase(string_of(&c).as_str());
                (name, Vec::new(), none)
            },
        },
    }
}

/// Tests whether the closing tag of `tag` starts at `pos`.
pub fn looking_at_close_tag(input: &Vec<char>, pos: usize, tag: &str) -> (r: bool)
    ensures
        r == closes_at(input@, pos as int, tag@),
        r ==> pos + 3 + tag@.len() <= input.len(),
{
    proof {
        reveal_strlit("[/");
    }
    if !starts_with_str(input, pos, "[/") {
        return false;
    }
    let n = tag.unicode_len();
    if n >= input.len() - pos - 2 {
        return false;
    }
    if input[pos + 2 + n] != ']' {
        return false;
    }
    let candidate = string_of(&slice(input, pos + 2, pos + 2 + n));
    lowercase(candidate.as_str()) == lowercase(tag)
}

/// Appends the plain span for `input[a..b]` to `spans`, unless it is empty.
pub fn flush_plain(spans: &mut Vec<Span>, input: &Vec<char>, a: usize, b: usize)
    requires
        a <= b <= input.len(),
    ensures
        span_models(final(spans)@) == span_models(old(spans)@) + plain_run(
            input@,
            a as int,
            b as int,
        ),
{
    if a < b {
        let text = string_of(&slice(input, a, b));
        spans.push(Span { kind: SpanKind::Plain { text } });
        assert(span_models(spans@) =~= span_models(old(spans)@) + plain_run(
            input@,
            a as int,
            b as int,
        ));
    } else {
        assert(span_models(spans@) =~= span_models(old(spans)@) + plain_run(
            input@,
            a as int,
            b as int,
        ));
    }
}

/// The message of the structural failure that deep nesting is.
pub fn nesting_error() -> (r: String)
    ensures
        r@ == "markup is nested too deeply"@,
{
    "markup is nested too deeply".to_owned()
}

/// Reads a divider at `pos`, with its content.
pub fn try_parse_divider(input: &Vec<char>, pos: usize, depth: usize) -> (r: Result<
    Option<(Span, usize)>,
    String,
>)
    requires
        pos <= input.len(),
        depth <= MAX_DEPTH,
    ensures
        match r {
            Ok(Some((span, next))) => divider_at(input@, pos as int, depth as nat) == (
            Construct::Found { span: span_model(span), next: next as int }) && pos < next
                <= input.len(),
            Ok(None) => divider_at(input@, pos as int, depth as nat) is Absent,
            Err(e) => divider_at(input@, pos as int, depth as nat) is TooDeep && e@
                == "markup is nested too deeply"@,
        },
    decreases input.len() - pos, 0nat,
{
    proof {
        reveal_strlit("===");
    }
    let n = count_equals(input, pos);
    if n < 6 {
        return Ok(None);
    }
    let after = pos + n;
    let bare = after >= input.len() || input[after] == '=' || input[after] == '<' || input[after]
        == '[';
    assert(span_models(Seq::<Span>::empty()) =~= Seq::<SpanModel>::empty());
    if bare {
        return Ok(Some((Span::divider(Vec::new()), after)));
    }
    match find_seq_from(input, &chars_of("==="), after) {
        Some(k) => {
            proof {
                lemma_find_seq(input@, "==="@, after as int);
            }
            let content = slice(input, after, k);
            match parse_spans(&content, 0, None, depth) {
                Ok((spans, _)) => {
                    let closing = count_equals(input, k);
                    Ok(Some((Span::divider(spans), k + closing)))
                },
                Err(e) => Err(e),
            }
        },
        None => Ok(Some((Span::divider(Vec::new()), after))),
    }
}

/// Reads a generic tag at `pos`, with its content.
pub fn try_parse_tag(input: &Vec<char>, pos: usize, depth: usize) -> (r: Result<
    Option<(Span, usize)>,
    String,
>)
    requires
        pos <= input.len(),
        depth <= MAX_DEPTH,
    ensures
        match r {
            Ok(Some((span, next))) => tag_at(input@, pos as int, depth as nat) == (
            Construct::Found { span: span_model(span), next: next as int }) && pos < next
                <= input.len(),
            Ok(None) => tag_at(input@, pos as int, depth as nat) is Absent,
            Err(e) => tag_at(input@, pos as int, depth as nat) is TooDeep && e@
                == "markup is nested too deeply"@,
        },
    decreases input.len() - pos, 0nat,
{
    proof {
        reveal_strlit("[");
        reveal_strlit("[/");
    }
    if !starts_with_str(input, pos, "[") || starts_with_str(input, pos, "[/") {
        return Ok(None);
    }
    match find_char_from(input, ']', pos + 1) {
        None => Ok(None),
        Some(end) => {
            proof {
                lemma_find_char(input@, ']', pos + 1);
            }
            let content = slice(input, pos + 1, end);
            let (name, attributes, complex_attributes) = parse_tag_parts(&content);
            if name.as_str().is_empty() {
                return Ok(None);
            }
            if depth >= MAX_DEPTH {
                return Err(nesting_error());
            }
            match parse_spans(input, end + 1, Some(name.as_str()), depth + 1) {
                Ok((spans, next)) => {
                    let span = Span::tagged(name.as_str(), attributes, complex_attributes, spans);
                    Ok(Some((span, next)))
                },
                Err(e) => Err(e),
            }
        },
    }
}

/// Reads the construct that starts at `pos`, if any.
pub fn try_parse_construct(input: &Vec<char>, pos: usize, depth: usize) -> (r: Result<
    Option<(Span, usize)>,
    String,
>)
    requires
        pos <= input.len(),
        depth <= MAX_DEPTH,
    ensures
        match r {
            Ok(Some((span, next))) => construct_at(input@, pos as int, depth as nat) == (
            Construct::Found { span: span_model(span), next: next as int }) && pos < next
                <= input.len(),
            Ok(None) => construct_at(input@, pos as int, depth as nat) is Absent,
            Err(e) => construct_at(input@, pos as int, depth as nat) is TooDeep && e@
                == "markup is nested too deeply"@,
        },
    decreases input.len() - pos, 1nat,
{
    if let Some(next) = try_parse_br(input, pos) {
        return Ok(Some((Span::line_break(), next)));
    }
    match try_parse_divider(input, pos, depth) {
        Ok(None) => {},
        found => {
            return found;
        },
    }
    if let Some(found) = try_parse_sticker(input, pos) {
        return Ok(Some(found));
    }
    if let Some(found) = try_parse_at_mention(input, pos) {
        return Ok(Some(found));
    }
    try_parse_tag(input, pos, depth)
}

/// Reads spans from `pos` up to the closing tag of `close_tag` or, without
/// one, to the end of the input. Gives the spans and the position after
/// them.
pub fn parse_spans(input: &Vec<char>, pos: usize, close_tag: Option<&str>, depth: usize) -> (r:
    Result<(Vec<Span>, usize), String>)
    requires
        pos <= input.len(),
        depth <= MAX_DEPTH,
    ensures
        match r {
            Ok((spans, next)) => spans_from(
                input@,
                pos as int,
                pos as int,
                close_view(close_tag),
                depth as nat,
            ) == (Outcome::Parsed { spans: span_models(spans@), next: next as int }) && pos <= next
                <= input.len(),
            Err(e) => spans_from(
                input@,
                pos as int,
                pos as int,
                close_view(close_tag),
                depth as nat,
            ) is TooDeep && e@ == "markup is nested too deeply"@,
        },
    decreases input.len() - pos, 2nat,
{
    let ghost s = input@;
    let ghost close = close_view(close_tag);
    let ghost d = depth as nat;
    let ghost whole = spans_from(s, pos as int, pos as int, close, d);
    let mut spans: Vec<Span> = Vec::new();
    let mut plain_start: usize = pos;
    let mut cur: usize = pos;
    assert(span_models(spans@) =~= Seq::<SpanModel>::empty());
    proof {
        lemma_prepend_empty(whole);
    }
    while cur < input.len()
        invariant
            pos <= plain_start <= cur <= input.len(),
            depth <= MAX_DEPTH,
            s == input@,
            close == close_view(close_tag),
            d == depth as nat,
            whole == spans_from(s, pos as int, pos as int, close, d),
            whole == prepend(
                span_models(spans@),
                spans_from(s, cur as int, plain_start as int, close, d),
            ),
        decreases input.len() - cur,
    {
        let ghost here = spans_from(s, cur as int, plain_start as int, close, d);
        let ghost before = span_models(spans@);
        if let Some(tag) = close_tag {
            if looking_at_close_tag(input, cur, tag) {
                flush_plain(&mut spans, input, plain_start, cur);
                let n = tag.unicode_len();
                return Ok((spans, cur + 3 + n));
            }
        }
        match try_parse_construct(input, cur, depth) {
            Err(e) => {
                return Err(e);
            },
            Ok(Some((span, next))) => {
                flush_plain(&mut spans, input, plain_start, cur);
                let ghost flushed = span_models(spans@);
                spans.push(span);
                proof {
                    let head = plain_run(s, plain_start as int, cur as int).push(span_model(span));
                    let rest = spans_from(s, next as int, next as int, close, d);
                    assert(span_models(spans@) =~= flushed.push(span_model(span)));
                    assert(span_models(spans@) =~= before + head);
                    assert(here == prepend(head, rest));
                    lemma_prepend_prepend(before, head, rest);
                }
                cur = next;
                plain_start = next;
            },
            Ok(None) => {
                cur = cur + 1;
            },
        }
    }
    flush_plain(&mut spans, input, plain_start, cur);
    Ok((spans, cur))
}

/// The view of an optional closing-tag name.
pub open spec fn close_view(close_tag: Option<&str>) -> Option<Seq<char>> {
    match close_tag {
        Some(t) => Some(t@),
        None => None,
    }
}

/// Putting nothing in front of an outcome leaves it as it is.
pub proof fn lemma_prepend_empty(out: Outcome)
    ensures
        prepend(Seq::empty(), out) == out,
{
    match out {
        Outcome::Parsed { spans, next } => {
            assert(Seq::<SpanModel>::empty() + spans =~= spans);
        },
        Outcome::TooDeep => {},
    }
}

/// Putting two runs in front of an outcome, one after the other, is putting
/// their concatenation in front of it.
pub proof fn lemma_prepend_prepend(a: Seq<SpanModel>, b: Seq<SpanModel>, out: Outcome)
    ensures
        prepend(a, prepend(b, out)) == prepend(a + b, out),
{
    match out {
        Outcome::Parsed { spans, next } => {
            assert(a + (b + spans) =~= (a + b) + spans);
        },
        Outcome::TooDeep => {},
    }
}

/// Decodes character references twice over.
pub fn unescape_html(text: &str) -> (r: String)
    ensures
        r@ == unescaped(text@),
        !text@.contains('&') ==> r@ == text@,
{
    let first = decode_html(text);
    decode_html(first.as_str())
}

/// Whether `c` is what the content text `text` parses to: the raw text
/// kept is the normalised text, and the spans are those of the grammar
/// or, where the markup is nested too deeply, the whole text as one plain
/// span beside the error.
pub open spec fn is_content_of(c: PostContent, text: Seq<char>) -> bool {
    &&& c.raw@ == normalised(text)
    &&& match parse(c.raw@) {
        Outcome::Parsed { spans, .. } => span_models(c.spans@) == spans && c.parse_error is None,
        Outcome::TooDeep => span_models(c.spans@) == seq![SpanModel::Plain(with_newlines(c.raw@))]
            && c.parse_error is Some,
    }
}

/// Parse markup content into structured spans.
///
/// The text is unescaped and its newlines become line-break markers; that
/// is the raw text kept in the result. It is then read by the grammar. When
/// the markup is nested too deeply to be read, nothing is lost: the result
/// holds the error and the whole text as one plain span, markers shown as
/// newlines. Text without markup always parses, and its plain text is the
/// raw text with markers shown as newlines; where the unescaped text
/// holds no marker either, it is that text itself, newlines included. So
/// text that holds no `&`, no `[`, no six `=` in a row and no marker comes
/// back from the parse as it went in. And only deep nesting makes a parse
/// fail: content with no more `[` than the nesting limit always parses.
pub fn parse_content(text: &str) -> (r: PostContent)
    ensures
        is_content_of(r, text@),
        r.parse_error is Some ==> r.parse_error->0@.len() > 0 && r.plain_text() == with_newlines(
            r.raw@,
        ),
        markup_free(r.raw@) ==> r.parse_error is None && r.plain_text() == with_newlines(r.raw@),
        is_text_only(unescaped(text@)) ==> r.parse_error is None && r.plain_text() == unescaped(
            text@,
        ),
        !text@.contains('&') ==> unescaped(text@) == text@ && r.raw@ == replaced(
            text@,
            seq!['\n'],
            "<br/>"@,
        ),
        is_text_only(text@) && !text@.contains('&') ==> r.parse_error is None && r.plain_text()
            == text@,
        brackets_from(r.raw@, 0) <= MAX_DEPTH ==> r.parse_error is None,
{
    proof {
        reveal_strlit("<br/>");
        reveal_strlit("markup is nested too deeply");
    }
    let decoded = unescape_html(text);
    let chars = chars_of(decoded.as_str());
    let marker = chars_of("<br/>");
    let mut newline: Vec<char> = Vec::new();
    newline.push('\n');
    assert(newline@ =~= seq!['\n']);
    let raw_chars = replace_all(&chars, &newline, &marker);
    let raw = string_of(&raw_chars);
    proof {
        if markup_free(raw@) {
            lemma_markup_free_projection(raw@);
        }
        if is_text_only(unescaped(text@)) {
            lemma_text_round_trip(unescaped(text@));
        }
        if brackets_from(raw@, 0) <= MAX_DEPTH {
            lemma_few_brackets_parse(raw@);
        }
    }
    match parse_spans(&raw_chars, 0, None, 0) {
        Ok((spans, _)) => PostContent { spans, raw, parse_error: None },
        Err(e) => {
            let shown = string_of(&replace_all(&raw_chars, &marker, &newline));
            let mut spans: Vec<Span> = Vec::new();
            spans.push(Span { kind: SpanKind::Plain { text: shown } });
            proof {
                let m = SpanModel::Plain(with_newlines(raw@));
                assert(span_models(spans@) =~= seq![m]);
                lemma_models_text_push(Seq::empty(), m);
                assert(Seq::<SpanModel>::empty().push(m) =~= seq![m]);
                assert(Seq::<char>::empty() + with_newlines(raw@) =~= with_newlines(raw@));
            }
            PostContent { spans, raw, parse_error: Some(e) }
        },
    }
}

/// Parse a subject/title line into tags and content. The line is
/// unescaped first, which leaves a line without `&` as it is.
pub fn parse_subject(text: &str) -> (r: (Vec<String>, String))
    ensures
        strs_of(r.0@) == subject_of(unescaped(text@)).0,
        r.1@ == subject_of(unescaped(text@)).1,
        !text@.contains('&') ==> unescaped(text@) == text@ && strs_of(r.0@) == subject_of(
            text@,
        ).0 && r.1@ == subject_of(text@).1,
{
    let decoded = unescape_html(text);
    let s = chars_of(decoded.as_str());
    let mut tags: Vec<String> = Vec::new();
    let mut pos: usize = 0;
    assert(strs_of(tags@) =~= Seq::<Seq<char>>::empty());
    assert(Seq::<Seq<char>>::empty() + leading_tags(s@, 0).0 =~= leading_tags(s@, 0).0);
    let mut unclosed = false;
    while !unclosed && pos < s.len() && s[pos] == '['
        invariant
            pos <= s.len(),
            leading_tags(s@, 0).0 == strs_of(tags@) + leading_tags(s@, pos as int).0,
            leading_tags(s@, 0).1 == leading_tags(s@, pos as int).1,
            unclosed ==> leading_tags(s@, pos as int) == (Seq::<Seq<char>>::empty(), pos as int),
        decreases s.len() - pos, (if unclosed { 0int } else { 1int }),
    {
        let ghost before = strs_of(tags@);
        match find_char_from(&s, ']', pos + 1) {
            Some(end) => {
                proof {
                    lemma_find_char(s@, ']', pos + 1);
                    lemma_skip_ws(s@, end + 1);
                }
                let (a, b) = trim_bounds(&s, pos + 1, end);
                if a < b {
                    tags.push(string_of(&slice(&s, a, b)));
                    assert(strs_of(tags@) =~= before + seq![s@.subrange(a as int, b as int)]);
                }
                let mut next: usize = end + 1;
                while next < s.len() && crate::text::is_space(s[next])
                    invariant
                        end + 1 <= next <= s.len(),
                        skip_ws(s@, end + 1) == skip_ws(s@, next as int),
                    decreases s.len() - next,
                {
                    next = next + 1;
                }
                proof {
                    let tag = trimmed(s@.subrange(pos + 1, end as int));
                    let rest = leading_tags(s@, next as int);
                    if tag.len() > 0 {
                        assert(before + (seq![tag] + rest.0) =~= (before + seq![tag]) + rest.0);
                    }
                }
                pos = next;
            },
            None => {
                unclosed = true;
            },
        }
    }
    assert(leading_tags(s@, pos as int) == (Seq::<Seq<char>>::empty(), pos as int));
    assert(leading_tags(s@, 0).0 =~= strs_of(tags@));
    if pos >= s.len() && tags.len() > 0 {
        let ghost all = strs_of(tags@);
        let last = tags.pop().unwrap();
        let mut content: Vec<char> = Vec::new();
        content.push('[');
        crate::text::extend(&mut content, &chars_of(last.as_str()));
        content.push(']');
        assert(content@ =~= seq!['['] + all.last() + seq![']']);
        assert(strs_of(tags@) =~= all.drop_last());
        (tags, string_of(&content))
    } else {
        (tags, string_of(&slice(&s, pos, s.len())))
    }
}

} // verus!
