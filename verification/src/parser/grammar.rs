//! The markup grammar as mathematical functions over character sequences.
//!
//! A content string is read left to right. At each position the parser
//! tries, in this order: a line-break marker, a divider line, a sticker, a
//! mention, a generic tag. What matches no construct is plain text.

use crate::models::content::SpanModel;
use crate::text::{
    find_char, find_seq, has_prefix_at, decoded, lemma_find_char, lemma_find_seq,
    lemma_skip_ws, lowered, replaced, skip_ws, split, trimmed,
};
use vstd::prelude::*;

verus! {

/// Deepest nesting of tags and dividers that is parsed; content nested more
/// deeply is a structural failure.
pub const MAX_DEPTH: usize = 128;

/// Length of the line-break marker that starts at `pos`, if one does.
pub open spec fn line_break_at(s: Seq<char>, pos: int) -> Option<int> {
    if has_prefix_at(s, pos, "<br/>"@) {
        Some("<br/>"@.len() as int)
    } else if has_prefix_at(s, pos, "[stripbr]"@) {
        Some("[stripbr]"@.len() as int)
    } else {
        None
    }
}

/// Number of consecutive `=` characters starting at `pos`.
pub open spec fn equals_run(s: Seq<char>, pos: int) -> int
    decreases s.len() - pos,
{
    if 0 <= pos < s.len() && s[pos] == '=' {
        1 + equals_run(s, pos + 1)
    } else {
        0
    }
}

/// Whether a run of `=` that ends just before `next` stands alone as a
/// divider: it does at the end of the input and before `=`, `<` or `[`.
pub open spec fn divider_is_bare(s: Seq<char>, next: int) -> bool {
    next >= s.len() || s[next] == '=' || s[next] == '<' || s[next] == '['
}

/// The sticker that starts at `pos`: its name and the position after it.
pub open spec fn sticker_at(s: Seq<char>, pos: int) -> Option<(Seq<char>, int)> {
    if has_prefix_at(s, pos, "[s:"@) {
        match find_char(s, ']', pos + 3) {
            Some(end) => Some((s.subrange(pos + 3, end), end + 1)),
            None => None,
        }
    } else {
        None
    }
}

/// The mention that starts at `pos`: the user name and the position after.
pub open spec fn mention_at(s: Seq<char>, pos: int) -> Option<(Seq<char>, int)> {
    if has_prefix_at(s, pos, "[@"@) {
        match find_char(s, ']', pos + 2) {
            Some(end) => Some((trimmed(s.subrange(pos + 2, end)), end + 1)),
            None => None,
        }
    } else {
        None
    }
}

/// The span that a mention of `user` becomes.
pub open spec fn mention_span(user: Seq<char>) -> SpanModel {
    SpanModel::Tagged {
        tag: "at"@,
        attributes: seq![user],
        complex_attributes: Seq::empty(),
        spans: Seq::empty(),
    }
}

/// Each member of `parts`, trimmed.
pub open spec fn trim_each(parts: Seq<Seq<char>>) -> Seq<Seq<char>> {
    parts.map_values(|p: Seq<char>| trimmed(p))
}

/// The members of `parts` that are not empty, in order.
pub open spec fn nonempty(parts: Seq<Seq<char>>) -> Seq<Seq<char>>
    decreases parts.len(),
{
    if parts.len() == 0 {
        Seq::empty()
    } else if parts.last().len() > 0 {
        nonempty(parts.drop_last()).push(parts.last())
    } else {
        nonempty(parts.drop_last())
    }
}

/// Each member of `parts`, trimmed, without those that are then empty.
pub open spec fn trim_nonempty(parts: Seq<Seq<char>>) -> Seq<Seq<char>> {
    nonempty(trim_each(parts))
}

/// The name and the attributes that the text between `[` and `]` holds.
pub struct TagParts {
    pub name: Seq<char>,
    pub attributes: Seq<Seq<char>>,
    pub complex_attributes: Seq<Seq<char>>,
}

/// Splits the inside of a tag. A space after the name starts space-separated
/// complex attributes; otherwise `=` starts comma-separated simple ones.
pub open spec fn tag_parts(content: Seq<char>) -> TagParts {
    let c = trimmed(content);
    match find_char(c, ' ', 0) {
        Some(sp) => TagParts {
            name: lowered(c.subrange(0, sp)),
            attributes: Seq::empty(),
            complex_attributes: trim_nonempty(split(c.subrange(sp + 1, c.len() as int), ' ')),
        },
        None => match find_char(c, '=', 0) {
            Some(eq) => TagParts {
                name: lowered(c.subrange(0, eq)),
                attributes: trim_each(split(c.subrange(eq + 1, c.len() as int), ',')),
                complex_attributes: Seq::empty(),
            },
            None => TagParts {
                name: lowered(c),
                attributes: Seq::empty(),
                complex_attributes: Seq::empty(),
            },
        },
    }
}

/// Whether the closing tag of `tag` starts at `pos`: `[/`, then as many
/// characters as the name has, equal to it but for case, then `]`.
pub open spec fn closes_at(s: Seq<char>, pos: int, tag: Seq<char>) -> bool {
    &&& has_prefix_at(s, pos, "[/"@)
    &&& pos + 2 + tag.len() < s.len()
    &&& lowered(s.subrange(pos + 2, pos + 2 + tag.len())) == lowered(tag)
    &&& s[pos + 2 + tag.len()] == ']'
}

/// The plain span for `s[a..b]`, or nothing when the range is empty.
pub open spec fn plain_run(s: Seq<char>, a: int, b: int) -> Seq<SpanModel> {
    if a < b {
        seq![SpanModel::Plain(s.subrange(a, b))]
    } else {
        Seq::empty()
    }
}

/// What trying to read one construct at a position gives.
pub enum Construct {
    /// Nothing starts here: the character is plain text.
    Absent,
    /// A span, and the position after it.
    Found { span: SpanModel, next: int },
    /// The content is nested too deeply.
    TooDeep,
}

/// What reading a run of spans gives.
pub enum Outcome {
    /// The spans read, and the position after them.
    Parsed { spans: Seq<SpanModel>, next: int },
    /// The content is nested too deeply.
    TooDeep,
}

/// `out` with `head` put in front of its spans.
pub open spec fn prepend(head: Seq<SpanModel>, out: Outcome) -> Outcome {
    match out {
        Outcome::Parsed { spans, next } => Outcome::Parsed { spans: head + spans, next },
        Outcome::TooDeep => Outcome::TooDeep,
    }
}

/// The divider that starts at `pos`. Six or more `=` open it. Unless it is
/// bare, the text up to the next `===` is its content, read on its own, and
/// the whole closing run of `=` belongs to it. Where the content cannot be
/// read, being nested too deeply, the divider cannot be read either: no
/// text is dropped without a trace.
pub open spec fn divider_at(s: Seq<char>, pos: int, depth: nat) -> Construct
    decreases s.len() - pos, 0nat,
    when 0 <= pos <= s.len()
{
    let n = equals_run(s, pos);
    if n < 6 {
        Construct::Absent
    } else if divider_is_bare(s, pos + n) {
        Construct::Found { span: SpanModel::Divider(Seq::empty()), next: pos + n }
    } else {
        match find_seq(s, "==="@, pos + n) {
            Some(k) => {
                proof {
                    lemma_find_seq(s, "==="@, pos + n);
                }
                match parse_spans(s.subrange(pos + n, k), 0, 0, None, depth) {
                    Outcome::Parsed { spans, .. } => Construct::Found {
                        span: SpanModel::Divider(spans),
                        next: k + equals_run(s, k),
                    },
                    Outcome::TooDeep => Construct::TooDeep,
                }
            },
            None => Construct::Found { span: SpanModel::Divider(Seq::empty()), next: pos + n },
        }
    }
}

/// The generic tag that starts at `pos`, with the spans up to its closing
/// tag, or up to the end of the input when it is never closed.
pub open spec fn tag_at(s: Seq<char>, pos: int, depth: nat) -> Construct
    decreases s.len() - pos, 0nat,
    when 0 <= pos <= s.len()
{
    if !has_prefix_at(s, pos, "["@) || has_prefix_at(s, pos, "[/"@) {
        Construct::Absent
    } else {
        match find_char(s, ']', pos + 1) {
            None => Construct::Absent,
            Some(end) => {
                proof {
                    lemma_find_char(s, ']', pos + 1);
                }
                let parts = tag_parts(s.subrange(pos + 1, end));
                if parts.name.len() == 0 {
                    Construct::Absent
                } else if depth >= MAX_DEPTH {
                    Construct::TooDeep
                } else {
                    match parse_spans(s, end + 1, end + 1, Some(parts.name), depth + 1) {
                        Outcome::Parsed { spans, next } => Construct::Found {
                            span: SpanModel::Tagged {
                                tag: parts.name,
                                attributes: parts.attributes,
                                complex_attributes: parts.complex_attributes,
                                spans,
                            },
                            next,
                        },
                        Outcome::TooDeep => Construct::TooDeep,
                    }
                }
            },
        }
    }
}

/// The construct that starts at `pos`, by the grammar's order of
/// precedence.
pub open spec fn construct_at(s: Seq<char>, pos: int, depth: nat) -> Construct
    decreases s.len() - pos, 1nat,
    when 0 <= pos <= s.len()
{
    match line_break_at(s, pos) {
        Some(n) => Construct::Found { span: SpanModel::LineBreak, next: pos + n },
        None => match divider_at(s, pos, depth) {
            Construct::Absent => match sticker_at(s, pos) {
                Some((name, next)) => Construct::Found { span: SpanModel::Sticker(name), next },
                None => match mention_at(s, pos) {
                    Some((user, next)) => Construct::Found { span: mention_span(user), next },
                    None => tag_at(s, pos, depth),
                },
            },
            divider => divider,
        },
    }
}

/// The spans from `pos` on, up to the closing tag of `close` or, without
/// one, to the end of the input. The characters from `plain_start` to `pos`
/// are plain text that no span holds yet.
///
/// A construct always ends after `pos` and within the input (this is
/// `lemma_construct_advances` among the laws); the test for it here only
/// lets the definition be seen to terminate.
pub open spec fn parse_spans(
    s: Seq<char>,
    pos: int,
    plain_start: int,
    close: Option<Seq<char>>,
    depth: nat,
) -> Outcome
    decreases s.len() - pos, 2nat,
    when 0 <= pos <= s.len()
{
    if pos >= s.len() {
        Outcome::Parsed { spans: plain_run(s, plain_start, pos), next: pos }
    } else if close is Some && closes_at(s, pos, close->0) {
        Outcome::Parsed {
            spans: plain_run(s, plain_start, pos),
            next: pos + 3 + close->0.len(),
        }
    } else {
        match construct_at(s, pos, depth) {
            Construct::TooDeep => Outcome::TooDeep,
            Construct::Found { span, next } => {
                if pos < next <= s.len() {
                    prepend(
                        plain_run(s, plain_start, pos).push(span),
                        parse_spans(s, next, next, close, depth),
                    )
                } else {
                    Outcome::TooDeep
                }
            },
            Construct::Absent => parse_spans(s, pos + 1, plain_start, close, depth),
        }
    }
}

/// The spans of a whole content string.
pub open spec fn parse(s: Seq<char>) -> Outcome {
    parse_spans(s, 0, 0, None, 0)
}

/// The text with its character references decoded twice over: stored
/// content is escaped twice.
pub open spec fn unescaped(text: Seq<char>) -> Seq<char> {
    decoded(decoded(text))
}

/// The unescaped text with every newline written as the line-break marker:
/// the form in which content is parsed and kept.
pub open spec fn normalised(text: Seq<char>) -> Seq<char> {
    replaced(unescaped(text), seq!['\n'], "<br/>"@)
}

/// The raw text as one reads it: every line-break marker a newline.
pub open spec fn with_newlines(raw: Seq<char>) -> Seq<char> {
    replaced(raw, "<br/>"@, seq!['\n'])
}

/// The leading bracketed tags of a subject line from `pos` on, and where
/// the text after them starts. Each tag is trimmed, an empty one is passed
/// over, and whitespace after a tag is skipped. A `[` that is never closed
/// ends the tags.
pub open spec fn leading_tags(s: Seq<char>, pos: int) -> (Seq<Seq<char>>, int)
    decreases s.len() - pos,
    when 0 <= pos <= s.len()
{
    if pos < s.len() && s[pos] == '[' {
        match find_char(s, ']', pos + 1) {
            Some(end) => {
                proof {
                    lemma_find_char(s, ']', pos + 1);
                    lemma_skip_ws(s, end + 1);
                }
                let tag = trimmed(s.subrange(pos + 1, end));
                let rest = leading_tags(s, skip_ws(s, end + 1));
                if tag.len() > 0 {
                    (seq![tag] + rest.0, rest.1)
                } else {
                    rest
                }
            },
            None => (Seq::empty(), pos),
        }
    } else {
        (Seq::empty(), pos)
    }
}

/// The tags and the content of a subject line that is already unescaped.
/// When the tags use up the whole line, the last of them is the content,
/// brackets included: a title of one tag stays a title.
pub open spec fn subject_of(s: Seq<char>) -> (Seq<Seq<char>>, Seq<char>) {
    let (tags, start) = leading_tags(s, 0);
    if start >= s.len() && tags.len() > 0 {
        (tags.drop_last(), seq!['['] + tags.last() + seq![']'])
    } else {
        (tags, s.subrange(start, s.len() as int))
    }
}

} // verus!
