//! Parsed post content: the span tree and subject lines.

use crate::text::{chars_of, extend, str_eq, string_of, strs_of};
use vstd::prelude::*;

verus! {

/// Mathematical model of a [`Span`].
pub enum SpanModel {
    Plain(Seq<char>),
    LineBreak,
    Sticker(Seq<char>),
    Divider(Seq<SpanModel>),
    Tagged {
        tag: Seq<char>,
        attributes: Seq<Seq<char>>,
        complex_attributes: Seq<Seq<char>>,
        spans: Seq<SpanModel>,
    },
}

/// A span of content with specific formatting or type.
#[derive(Debug)]
pub struct Span {
    /// The kind of span with its data.
    pub kind: SpanKind,
}

/// Different kinds of content spans.
#[derive(Debug)]
pub enum SpanKind {
    /// Plain text.
    Plain { text: String },
    /// Line break.
    LineBreak,
    /// Sticker/emoji.
    Sticker { name: String },
    /// Divider line with optional inner content.
    Divider { spans: Vec<Span> },
    /// Tagged content.
    Tagged {
        tag: String,
        attributes: Vec<String>,
        complex_attributes: Vec<String>,
        spans: Vec<Span>,
    },
}

/// The model of one span.
pub open spec fn span_model(s: Span) -> SpanModel
    decreases s,
{
    match s.kind {
        SpanKind::Plain { text } => SpanModel::Plain(text@),
        SpanKind::LineBreak => SpanModel::LineBreak,
        SpanKind::Sticker { name } => SpanModel::Sticker(name@),
        SpanKind::Divider { spans } => SpanModel::Divider(span_models(spans@)),
        SpanKind::Tagged { tag, attributes, complex_attributes, spans } => SpanModel::Tagged {
            tag: tag@,
            attributes: strs_of(attributes@),
            complex_attributes: strs_of(complex_attributes@),
            spans: span_models(spans@),
        },
    }
}

/// The models of a list of spans, in order.
pub open spec fn span_models(v: Seq<Span>) -> Seq<SpanModel>
    decreases v,
{
    Seq::new(
        v.len(),
        |i: int|
            if 0 <= i < v.len() {
                span_model(v[i])
            } else {
                SpanModel::LineBreak
            },
    )
}

/// The plain text that one span stands for: its text, a newline for a line
/// break, nothing for a sticker, and the text of the nested spans otherwise.
pub open spec fn model_text(m: SpanModel) -> Seq<char>
    decreases m,
{
    match m {
        SpanModel::Plain(t) => t,
        SpanModel::LineBreak => seq!['\n'],
        SpanModel::Sticker(_) => Seq::empty(),
        SpanModel::Divider(spans) => models_text(spans),
        SpanModel::Tagged { spans, .. } => models_text(spans),
    }
}

/// The plain text of a list of spans: the texts of its members, joined.
pub open spec fn models_text(v: Seq<SpanModel>) -> Seq<char>
    decreases v,
{
    if v.len() == 0 {
        Seq::empty()
    } else {
        models_text(v.drop_last()) + model_text(v.last())
    }
}

/// Copies a list of strings.
pub fn clone_strings(v: &Vec<String>) -> (r: Vec<String>)
    ensures
        r@ == v@,
{
    let mut r: Vec<String> = Vec::new();
    let mut i: usize = 0;
    while i < v.len()
        invariant
            i <= v.len(),
            r@ == v@.subrange(0, i as int),
        decreases v.len() - i,
    {
        r.push(v[i].clone());
        i = i + 1;
    }
    assert(v@.subrange(0, i as int) =~= v@);
    r
}

/// Copies a list of spans.
pub fn clone_spans(v: &Vec<Span>) -> (r: Vec<Span>)
    ensures
        span_models(r@) == span_models(v@),
    decreases v,
{
    let mut r: Vec<Span> = Vec::new();
    let mut i: usize = 0;
    while i < v.len()
        invariant
            i <= v.len(),
            r@.len() == i,
            forall|j: int| 0 <= j < i ==> span_model(#[trigger] r@[j]) == span_model(v@[j]),
        decreases v.len() - i,
    {
        let c = clone_span(&v[i]);
        r.push(c);
        i = i + 1;
    }
    assert(span_models(r@) =~= span_models(v@));
    r
}

/// Copies one span.
pub fn clone_span(s: &Span) -> (r: Span)
    ensures
        span_model(r) == span_model(*s),
    decreases s,
{
    match &s.kind {
        SpanKind::Plain { text } => Span { kind: SpanKind::Plain { text: text.clone() } },
        SpanKind::LineBreak => Span { kind: SpanKind::LineBreak },
        SpanKind::Sticker { name } => Span { kind: SpanKind::Sticker { name: name.clone() } },
        SpanKind::Divider { spans } => Span { kind: SpanKind::Divider { spans: clone_spans(spans) } },
        SpanKind::Tagged { tag, attributes, complex_attributes, spans } => Span {
            kind: SpanKind::Tagged {
                tag: tag.clone(),
                attributes: clone_strings(attributes),
                complex_attributes: clone_strings(complex_attributes),
                spans: clone_spans(spans),
            },
        },
    }
}

impl Clone for Span {
    fn clone(&self) -> (r: Self)
        ensures
            span_model(r) == span_model(*self),
    {
        clone_span(self)
    }
}

/// Joining the texts of a list of spans distributes over appending a span.
pub proof fn lemma_models_text_push(v: Seq<SpanModel>, m: SpanModel)
    ensures
        models_text(v.push(m)) == models_text(v) + model_text(m),
{
    assert(v.push(m).drop_last() =~= v);
}

/// Joining the texts of a list of spans distributes over concatenation.
pub proof fn lemma_models_text_concat(a: Seq<SpanModel>, b: Seq<SpanModel>)
    ensures
        models_text(a + b) == models_text(a) + models_text(b),
    decreases b.len(),
{
    if b.len() == 0 {
        assert(a + b =~= a);
        assert(models_text(a) + models_text(b) =~= models_text(a));
    } else {
        lemma_models_text_concat(a, b.drop_last());
        assert((a + b).drop_last() =~= a + b.drop_last());
        assert(models_text(a) + (models_text(b.drop_last()) + model_text(b.last())) =~= (models_text(
            a,
        ) + models_text(b.drop_last())) + model_text(b.last()));
    }
}

/// Appends the plain text of every span in `spans` to `out`.
pub fn append_spans_text(spans: &Vec<Span>, out: &mut Vec<char>)
    ensures
        final(out)@ == old(out)@ + models_text(span_models(spans@)),
    decreases spans,
{
    let ghost all = span_models(spans@);
    let mut i: usize = 0;
    assert(old(out)@ + models_text(all.subrange(0, 0)) =~= old(out)@);
    while i < spans.len()
        invariant
            i <= spans.len(),
            all == span_models(spans@),
            out@ == old(out)@ + models_text(all.subrange(0, i as int)),
        decreases spans.len() - i,
    {
        let ghost before = out@;
        append_span_text(&spans[i], out);
        proof {
            lemma_models_text_push(all.subrange(0, i as int), all[i as int]);
            assert(all.subrange(0, i + 1) =~= all.subrange(0, i as int).push(all[i as int]));
            assert(out@ =~= old(out)@ + models_text(all.subrange(0, i + 1)));
        }
        i = i + 1;
    }
    assert(all.subrange(0, i as int) =~= all);
}

/// Appends the plain text of `span` to `out`.
pub fn append_span_text(span: &Span, out: &mut Vec<char>)
    ensures
        final(out)@ == old(out)@ + model_text(span_model(*span)),
    decreases span,
{
    match &span.kind {
        SpanKind::Plain { text } => {
            let t = chars_of(text.as_str());
            extend(out, &t);
        },
        SpanKind::LineBreak => {
            out.push('\n');
            assert(out@ =~= old(out)@ + seq!['\n']);
        },
        SpanKind::Sticker { .. } => {
            assert(out@ =~= old(out)@ + Seq::<char>::empty());
        },
        SpanKind::Divider { spans } => {
            append_spans_text(spans, out);
        },
        SpanKind::Tagged { spans, .. } => {
            append_spans_text(spans, out);
        },
    }
}

impl Span {
    /// Create a plain text span.
    pub fn plain(text: &str) -> (r: Span)
        ensures
            span_model(r) == SpanModel::Plain(text@),
    {
        Span { kind: SpanKind::Plain { text: text.to_owned() } }
    }

    /// Create a line break span.
    pub fn line_break() -> (r: Span)
        ensures
            span_model(r) == SpanModel::LineBreak,
    {
        Span { kind: SpanKind::LineBreak }
    }

    /// Create a sticker span.
    pub fn sticker(name: &str) -> (r: Span)
        ensures
            span_model(r) == SpanModel::Sticker(name@),
    {
        Span { kind: SpanKind::Sticker { name: name.to_owned() } }
    }

    /// Create a divider span.
    pub fn divider(spans: Vec<Span>) -> (r: Span)
        ensures
            span_model(r) == SpanModel::Divider(span_models(spans@)),
    {
        Span { kind: SpanKind::Divider { spans } }
    }

    /// Create a tagged span.
    pub fn tagged(
        tag: &str,
        attributes: Vec<String>,
        complex_attributes: Vec<String>,
        spans: Vec<Span>,
    ) -> (r: Span)
        ensures
            span_model(r) == (SpanModel::Tagged {
                tag: tag@,
                attributes: strs_of(attributes@),
                complex_attributes: strs_of(complex_attributes@),
                spans: span_models(spans@),
            }),
    {
        Span { kind: SpanKind::Tagged { tag: tag.to_owned(), attributes, complex_attributes, spans } }
    }

    /// Extract plain text from this span.
    pub fn to_plain_text(&self) -> (r: String)
        ensures
            r@ == model_text(span_model(*self)),
    {
        let mut out: Vec<char> = Vec::new();
        append_span_text(self, &mut out);
        assert(Seq::<char>::empty() + model_text(span_model(*self)) =~= model_text(
            span_model(*self),
        ));
        string_of(&out)
    }

    /// Check if this is a plain text span.
    pub fn is_plain(&self) -> (r: bool)
        ensures
            r == (span_model(*self) is Plain),
    {
        match &self.kind {
            SpanKind::Plain { .. } => true,
            _ => false,
        }
    }

    /// Check if this is a tagged span with the given tag.
    pub fn is_tag(&self, tag: &str) -> (r: bool)
        ensures
            r == match span_model(*self) {
                SpanModel::Tagged { tag: t, .. } => t == tag@,
                _ => false,
            },
    {
        match &self.kind {
            SpanKind::Tagged { tag: t, .. } => str_eq(t.as_str(), tag),
            _ => false,
        }
    }

    /// Get the tag name if this is a tagged span.
    pub fn tag_name(&self) -> (r: Option<&str>)
        ensures
            match span_model(*self) {
                SpanModel::Tagged { tag, .. } => r is Some && r->0@ == tag,
                _ => r is None,
            },
    {
        match &self.kind {
            SpanKind::Tagged { tag, .. } => Some(tag.as_str()),
            _ => None,
        }
    }

    /// Get the first attribute if this is a tagged span.
    pub fn first_attr(&self) -> (r: Option<&str>)
        ensures
            match span_model(*self) {
                SpanModel::Tagged { attributes, .. } => if attributes.len() > 0 {
                    r is Some && r->0@ == attributes[0]
                } else {
                    r is None
                },
                _ => r is None,
            },
    {
        match &self.kind {
            SpanKind::Tagged { attributes, .. } => {
                if attributes.len() > 0 {
                    Some(attributes[0].as_str())
                } else {
                    None
                }
            },
            _ => None,
        }
    }
}

/// Parsed post content with structured spans.
#[derive(Debug)]
pub struct PostContent {
    /// Structured content spans.
    pub spans: Vec<Span>,
    /// Raw unparsed content.
    pub raw: String,
    /// Parse error if content couldn't be fully parsed.
    pub parse_error: Option<String>,
}

impl Clone for PostContent {
    fn clone(&self) -> (r: Self)
        ensures
            span_models(r.spans@) == span_models(self.spans@),
            r.raw == self.raw,
            r.parse_error == self.parse_error,
    {
        let parse_error = match &self.parse_error {
            Some(e) => Some(e.clone()),
            None => None,
        };
        PostContent { spans: clone_spans(&self.spans), raw: self.raw.clone(), parse_error }
    }
}

impl Default for PostContent {
    fn default() -> (r: Self)
        ensures
            r.spans@.len() == 0,
            r.raw@.len() == 0,
            r.parse_error is None,
    {
        PostContent { spans: Vec::new(), raw: String::new(), parse_error: None }
    }
}

impl PostContent {
    /// The plain-text projection: the texts of all spans, joined.
    pub open spec fn plain_text(&self) -> Seq<char> {
        models_text(span_models(self.spans@))
    }

    /// Create empty content.
    pub fn empty() -> (r: Self)
        ensures
            r.spans@.len() == 0,
            r.raw@.len() == 0,
            r.parse_error is None,
    {
        PostContent { spans: Vec::new(), raw: String::new(), parse_error: None }
    }

    /// Create content from plain text.
    pub fn plain(text: &str) -> (r: Self)
        ensures
            span_models(r.spans@) == seq![SpanModel::Plain(text@)],
            r.raw@ == text@,
            r.parse_error is None,
    {
        let mut spans: Vec<Span> = Vec::new();
        spans.push(Span::plain(text));
        assert(span_models(spans@) =~= seq![SpanModel::Plain(text@)]);
        PostContent { spans, raw: text.to_owned(), parse_error: None }
    }

    /// Check if content is empty.
    pub fn is_empty(&self) -> (r: bool)
        ensures
            r == (self.spans@.len() == 0 && self.raw@.len() == 0),
    {
        self.spans.len() == 0 && self.raw.as_str().is_empty()
    }

    /// Extract plain text from all spans.
    pub fn to_plain_text(&self) -> (r: String)
        ensures
            r@ == self.plain_text(),
    {
        let mut out: Vec<char> = Vec::new();
        append_spans_text(&self.spans, &mut out);
        assert(Seq::<char>::empty() + self.plain_text() =~= self.plain_text());
        string_of(&out)
    }
}

/// Subject with parsed tags and content.
#[derive(Debug, Clone)]
pub struct Subject {
    /// Tags extracted from subject.
    pub tags: Vec<String>,
    /// Main content after tags.
    pub content: String,
}

/// The tags written one after the other, each in square brackets.
pub open spec fn bracketed(tags: Seq<Seq<char>>) -> Seq<char>
    decreases tags.len(),
{
    if tags.len() == 0 {
        Seq::empty()
    } else {
        bracketed(tags.drop_last()) + seq!['['] + tags.last() + seq![']']
    }
}

impl Default for Subject {
    fn default() -> (r: Self)
        ensures
            r.tags@.len() == 0,
            r.content@.len() == 0,
    {
        Subject { tags: Vec::new(), content: String::new() }
    }
}

impl Subject {
    /// The display text: the content alone when there are no tags, else the
    /// bracketed tags, a space and the content.
    pub open spec fn display_text(&self) -> Seq<char> {
        if self.tags@.len() == 0 {
            self.content@
        } else {
            bracketed(strs_of(self.tags@)) + seq![' '] + self.content@
        }
    }

    /// Create from tags and content.
    pub fn new(tags: Vec<String>, content: String) -> (r: Self)
        ensures
            r.tags == tags,
            r.content == content,
    {
        Subject { tags, content }
    }

    /// Create from plain text.
    pub fn plain(text: &str) -> (r: Self)
        ensures
            r.tags@.len() == 0,
            r.content@ == text@,
    {
        Subject { tags: Vec::new(), content: text.to_owned() }
    }

    /// Full display text including tags.
    pub fn full_text(&self) -> (r: String)
        ensures
            r@ == self.display_text(),
    {
        if self.tags.len() == 0 {
            return self.content.clone();
        }
        let ghost all = strs_of(self.tags@);
        let mut out: Vec<char> = Vec::new();
        let mut i: usize = 0;
        assert(all.subrange(0, 0) =~= Seq::<Seq<char>>::empty());
        while i < self.tags.len()
            invariant
                i <= self.tags.len(),
                all == strs_of(self.tags@),
                out@ == bracketed(all.subrange(0, i as int)),
            decreases self.tags.len() - i,
        {
            let ghost before = out@;
            out.push('[');
            let t = chars_of(self.tags[i].as_str());
            extend(&mut out, &t);
            out.push(']');
            proof {
                assert(all.subrange(0, i + 1).drop_last() =~= all.subrange(0, i as int));
                assert(all.subrange(0, i + 1).last() == t@);
                assert(out@ =~= before + seq!['['] + t@ + seq![']']);
            }
            i = i + 1;
        }
        assert(all.subrange(0, i as int) =~= all);
        let ghost tags_text = out@;
        out.push(' ');
        let c = chars_of(self.content.as_str());
        extend(&mut out, &c);
        assert(out@ =~= tags_text + seq![' '] + self.content@);
        string_of(&out)
    }
}

} // verus!
