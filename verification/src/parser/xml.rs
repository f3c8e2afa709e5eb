//! The document model: read-only, query-based access to one XML response.

use crate::error::{prefixed, Error, Result};
use crate::number::{parse_decimal, parse_i64, parsed_i64, truncated_decimal};
use crate::text::{
    chars_of, contains, contains_seq, decode_html, decoded, find_char, find_char_from, find_seq,
    find_seq_from, has_prefix_at, lemma_find_char, lemma_find_seq, lowercase, lowered, seqs_of,
    slice, split, split_chars, starts_with_at, str_eq, string_of, trim, trimmed,
};
use vstd::prelude::*;

verus! {

/// Mathematical model of an attribute.
pub struct AttrModel {
    pub name: Seq<char>,
    pub namespace: Option<Seq<char>>,
    pub value: Seq<char>,
}

/// Mathematical model of a node.
pub enum NodeModel {
    Element { name: Seq<char>, attributes: Seq<AttrModel>, children: Seq<NodeModel> },
    Text(Seq<char>),
    Other,
}

/// One attribute of an element.
#[derive(Debug)]
pub struct XmlAttribute {
    /// Local part of the attribute's name.
    pub name: String,
    /// Namespace of the attribute's name, if it has one.
    pub namespace: Option<String>,
    /// The attribute's value.
    pub value: String,
}

/// One node of a parsed document, with all that is below it.
#[derive(Debug)]
pub enum XmlNode {
    /// An element: the local part of its name, its attributes and its child
    /// nodes, both in document order.
    Element { name: String, attributes: Vec<XmlAttribute>, children: Vec<XmlNode> },
    /// A text node.
    Text(String),
    /// Any other node: the root, a comment, a processing instruction, an
    /// attribute or namespace that a query selected.
    Other,
}

/// The model of one attribute.
pub open spec fn attr_model(a: XmlAttribute) -> AttrModel {
    AttrModel {
        name: a.name@,
        namespace: match a.namespace {
            Some(n) => Some(n@),
            None => None,
        },
        value: a.value@,
    }
}

/// The models of a list of attributes.
pub open spec fn attr_models(v: Seq<XmlAttribute>) -> Seq<AttrModel> {
    Seq::new(v.len(), |i: int| attr_model(v[i]))
}

/// The model of one node.
pub open spec fn node_model(n: XmlNode) -> NodeModel
    decreases n,
{
    match n {
        XmlNode::Element { name, attributes, children } => NodeModel::Element {
            name: name@,
            attributes: attr_models(attributes@),
            children: node_models(children@),
        },
        XmlNode::Text(t) => NodeModel::Text(t@),
        XmlNode::Other => NodeModel::Other,
    }
}

/// The models of a list of nodes.
pub open spec fn node_models(v: Seq<XmlNode>) -> Seq<NodeModel>
    decreases v,
{
    Seq::new(
        v.len(),
        |i: int|
            if 0 <= i < v.len() {
                node_model(v[i])
            } else {
                NodeModel::Other
            },
    )
}

/// The models of a list of borrowed nodes.
pub open spec fn ref_models(v: Seq<&XmlNode>) -> Seq<NodeModel> {
    Seq::new(v.len(), |i: int| node_model(*v[i]))
}

/// Value of the first attribute from index `i` on that has the name `name`
/// and no namespace.
pub open spec fn find_attr(attrs: Seq<AttrModel>, name: Seq<char>, i: int) -> Option<Seq<char>>
    decreases attrs.len() - i,
{
    if i < 0 || i >= attrs.len() {
        None
    } else if attrs[i].name == name && attrs[i].namespace is None {
        Some(attrs[i].value)
    } else {
        find_attr(attrs, name, i + 1)
    }
}

/// The value of the attribute `name` of a node: only elements have any.
pub open spec fn attr_of(m: NodeModel, name: Seq<char>) -> Option<Seq<char>> {
    match m {
        NodeModel::Element { attributes, .. } => find_attr(attributes, name, 0),
        _ => None,
    }
}

/// The texts of the text nodes among `children`, joined.
pub open spec fn direct_text(children: Seq<NodeModel>) -> Seq<char>
    decreases children.len(),
{
    if children.len() == 0 {
        Seq::empty()
    } else {
        direct_text(children.drop_last()) + match children.last() {
            NodeModel::Text(t) => t,
            _ => Seq::empty(),
        }
    }
}

/// The text content of a node: a text node's text, an element's direct
/// text, nothing otherwise.
pub open spec fn text_of(m: NodeModel) -> Seq<char> {
    match m {
        NodeModel::Element { children, .. } => direct_text(children),
        NodeModel::Text(t) => t,
        NodeModel::Other => Seq::empty(),
    }
}

/// The name of a node: an element's name, empty otherwise.
pub open spec fn name_of(m: NodeModel) -> Seq<char> {
    match m {
        NodeModel::Element { name, .. } => name,
        _ => Seq::empty(),
    }
}

/// The elements among `nodes`, in order.
pub open spec fn elements_among(nodes: Seq<NodeModel>) -> Seq<NodeModel>
    decreases nodes.len(),
{
    if nodes.len() == 0 {
        Seq::empty()
    } else if nodes.last() is Element {
        elements_among(nodes.drop_last()).push(nodes.last())
    } else {
        elements_among(nodes.drop_last())
    }
}

/// The elements named `name` among `nodes`, in order.
pub open spec fn elements_named(nodes: Seq<NodeModel>, name: Seq<char>) -> Seq<NodeModel>
    decreases nodes.len(),
{
    if nodes.len() == 0 {
        Seq::empty()
    } else if nodes.last() is Element && name_of(nodes.last()) == name {
        elements_named(nodes.drop_last(), name).push(nodes.last())
    } else {
        elements_named(nodes.drop_last(), name)
    }
}

/// The child elements of a node.
pub open spec fn children_of(m: NodeModel) -> Seq<NodeModel> {
    match m {
        NodeModel::Element { children, .. } => elements_among(children),
        _ => Seq::empty(),
    }
}

/// The child elements of a node that are named `name`.
pub open spec fn children_named_of(m: NodeModel, name: Seq<char>) -> Seq<NodeModel> {
    match m {
        NodeModel::Element { children, .. } => elements_named(children, name),
        _ => Seq::empty(),
    }
}

/// Name and value of each attribute, in order.
pub open spec fn attribute_pairs(attrs: Seq<AttrModel>) -> Seq<(Seq<char>, Seq<char>)> {
    Seq::new(attrs.len(), |i: int| (attrs[i].name, attrs[i].value))
}

/// Name and text content of each element among `children`, in order.
pub open spec fn child_pairs(children: Seq<NodeModel>) -> Seq<(Seq<char>, Seq<char>)>
    decreases children.len(),
{
    if children.len() == 0 {
        Seq::empty()
    } else if children.last() is Element {
        child_pairs(children.drop_last()).push(
            (name_of(children.last()), text_of(children.last())),
        )
    } else {
        child_pairs(children.drop_last())
    }
}

/// The fields of a node as the responses encode them, in two ways at once:
/// every attribute by its name, then every child element by its name with
/// its text content as the value.
pub open spec fn fields_of(m: NodeModel) -> Seq<(Seq<char>, Seq<char>)> {
    match m {
        NodeModel::Element { attributes, children, .. } => attribute_pairs(attributes)
            + child_pairs(children),
        _ => Seq::empty(),
    }
}

/// The value that a list of fields gives to `key`: where a key occurs more
/// than once, the last occurrence counts.
pub open spec fn lookup(fields: Seq<(Seq<char>, Seq<char>)>, key: Seq<char>) -> Option<Seq<char>>
    decreases fields.len(),
{
    if fields.len() == 0 {
        None
    } else if fields.last().0 == key {
        Some(fields.last().1)
    } else {
        lookup(fields.drop_last(), key)
    }
}

/// The number of different keys in a list of fields.
pub open spec fn key_count(fields: Seq<(Seq<char>, Seq<char>)>) -> nat
    decreases fields.len(),
{
    if fields.len() == 0 {
        0
    } else {
        key_count(fields.drop_last()) + if lookup(fields.drop_last(), fields.last().0) is None {
            1nat
        } else {
            0nat
        }
    }
}

/// The views of a list of key-value entries.
pub open spec fn entry_views(v: Seq<(String, String)>) -> Seq<(Seq<char>, Seq<char>)> {
    Seq::new(v.len(), |i: int| (v[i].0@, v[i].1@))
}

/// A list of named values in which a later entry overrides an earlier one
/// of the same key.
#[derive(Debug, Clone)]
pub struct AttrMap {
    pub entries: Vec<(String, String)>,
}

impl AttrMap {
    /// The entries as pairs of character sequences.
    pub open spec fn fields(&self) -> Seq<(Seq<char>, Seq<char>)> {
        entry_views(self.entries@)
    }

    /// Creates an empty map.
    pub fn new() -> (r: Self)
        ensures
            r.fields() == Seq::<(Seq<char>, Seq<char>)>::empty(),
    {
        let r = AttrMap { entries: Vec::new() };
        assert(r.fields() =~= Seq::<(Seq<char>, Seq<char>)>::empty());
        r
    }

    /// Adds an entry, which overrides any earlier one of the same key.
    pub fn insert(&mut self, key: String, value: String)
        ensures
            final(self).fields() == old(self).fields().push((key@, value@)),
    {
        self.entries.push((key, value));
        assert(self.fields() =~= old(self).fields().push((key@, value@)));
    }

    /// The value of `key`, if the map has one.
    pub fn get(&self, key: &str) -> (r: Option<&String>)
        ensures
            match r {
                Some(v) => lookup(self.fields(), key@) == Some(v@),
                None => lookup(self.fields(), key@) is None,
            },
    {
        let ghost all = self.fields();
        let mut j: usize = self.entries.len();
        assert(all.subrange(0, j as int) =~= all);
        while j > 0
            invariant
                j <= self.entries.len(),
                all == self.fields(),
                lookup(all, key@) == lookup(all.subrange(0, j as int), key@),
            decreases j,
        {
            let ghost cur = all.subrange(0, j as int);
            assert(cur.drop_last() =~= all.subrange(0, j - 1));
            assert(cur.last() == all[j - 1]);
            if str_eq(self.entries[j - 1].0.as_str(), key) {
                return Some(&self.entries[j - 1].1);
            }
            j = j - 1;
        }
        None
    }

    /// Whether the map has a value for `key`.
    pub fn contains_key(&self, key: &str) -> (r: bool)
        ensures
            r == lookup(self.fields(), key@) is Some,
    {
        self.get(key).is_some()
    }

    /// Whether one of the first `end` entries has the key `key`.
    fn has_before(&self, end: usize, key: &str) -> (r: bool)
        requires
            end <= self.entries.len(),
        ensures
            r == lookup(self.fields().subrange(0, end as int), key@) is Some,
    {
        let ghost all = self.fields().subrange(0, end as int);
        let mut j: usize = end;
        assert(all.subrange(0, j as int) =~= all);
        while j > 0
            invariant
                j <= end <= self.entries.len(),
                all == self.fields().subrange(0, end as int),
                lookup(all, key@) == lookup(all.subrange(0, j as int), key@),
            decreases j,
        {
            let ghost cur = all.subrange(0, j as int);
            assert(cur.drop_last() =~= all.subrange(0, j - 1));
            assert(cur.last() == self.fields()[j - 1]);
            if str_eq(self.entries[j - 1].0.as_str(), key) {
                return true;
            }
            j = j - 1;
        }
        false
    }

    /// The number of keys that the map has a value for.
    pub fn len(&self) -> (r: usize)
        ensures
            r == key_count(self.fields()),
    {
        let ghost all = self.fields();
        let mut count: usize = 0;
        let mut i: usize = 0;
        assert(all.subrange(0, 0) =~= Seq::<(Seq<char>, Seq<char>)>::empty());
        while i < self.entries.len()
            invariant
                i <= self.entries.len(),
                all == self.fields(),
                count <= i,
                count == key_count(all.subrange(0, i as int)),
            decreases self.entries.len() - i,
        {
            assert(all.subrange(0, i + 1).drop_last() =~= all.subrange(0, i as int));
            assert(all.subrange(0, i + 1).last() == all[i as int]);
            if !self.has_before(i, self.entries[i].0.as_str()) {
                count = count + 1;
            }
            i = i + 1;
        }
        assert(all.subrange(0, i as int) =~= all);
        count
    }
}

impl XmlNode {
    /// Get an attribute value.
    pub fn attr(&self, name: &str) -> (r: Option<String>)
        ensures
            match r {
                Some(v) => attr_of(node_model(*self), name@) == Some(v@),
                None => attr_of(node_model(*self), name@) is None,
            },
    {
        match self {
            XmlNode::Element { attributes, .. } => {
                let ghost all = attr_models(attributes@);
                let mut i: usize = 0;
                while i < attributes.len()
                    invariant
                        i <= attributes.len(),
                        all == attr_models(attributes@),
                        attr_of(node_model(*self), name@) == find_attr(all, name@, 0),
                        find_attr(all, name@, 0) == find_attr(all, name@, i as int),
                    decreases attributes.len() - i,
                {
                    let a = &attributes[i];
                    assert(all[i as int] == attr_model(*a));
                    if a.namespace.is_none() && str_eq(a.name.as_str(), name) {
                        return Some(a.value.clone());
                    }
                    i = i + 1;
                }
                None
            },
            _ => None,
        }
    }

    /// Get a required attribute value.
    pub fn require_attr(&self, name: &str) -> (r: Result<String>)
        ensures
            match r {
                Ok(v) => attr_of(node_model(*self), name@) == Some(v@),
                Err(e) => attr_of(node_model(*self), name@) is None && (e matches Error::MissingField(
                    f,
                ) && f@ == name@),
            },
    {
        match self.attr(name) {
            Some(v) => Ok(v),
            None => Err(Error::missing(name)),
        }
    }

    /// Get text content.
    pub fn text(&self) -> (r: String)
        ensures
            r@ == text_of(node_model(*self)),
    {
        match self {
            XmlNode::Text(t) => t.clone(),
            XmlNode::Element { children, .. } => {
                let ghost all = node_models(children@);
                let mut out = String::new();
                let mut i: usize = 0;
                assert(all.subrange(0, 0) =~= Seq::<NodeModel>::empty());
                while i < children.len()
                    invariant
                        i <= children.len(),
                        all == node_models(children@),
                        out@ == direct_text(all.subrange(0, i as int)),
                    decreases children.len() - i,
                {
                    let ghost before = out@;
                    assert(all.subrange(0, i + 1).drop_last() =~= all.subrange(0, i as int));
                    assert(all.subrange(0, i + 1).last() == node_model(children@[i as int]));
                    match &children[i] {
                        XmlNode::Text(t) => {
                            out = crate::error::prefixed(out.as_str(), t.as_str());
                        },
                        _ => {
                            assert(before + Seq::<char>::empty() =~= before);
                        },
                    }
                    i = i + 1;
                }
                assert(all.subrange(0, i as int) =~= all);
                out
            },
            XmlNode::Other => String::new(),
        }
    }

    /// Get element name.
    pub fn name(&self) -> (r: &str)
        ensures
            r@ == name_of(node_model(*self)),
    {
        proof {
            reveal_strlit("");
        }
        match self {
            XmlNode::Element { name, .. } => name.as_str(),
            _ => "",
        }
    }

    /// Whether this node is an element.
    pub fn is_element(&self) -> (r: bool)
        ensures
            r == (node_model(*self) is Element),
    {
        match self {
            XmlNode::Element { .. } => true,
            _ => false,
        }
    }

    /// Select child nodes: the child elements, in document order.
    pub fn children(&self) -> (r: Vec<&XmlNode>)
        ensures
            ref_models(r@) == children_of(node_model(*self)),
    {
        let mut out: Vec<&XmlNode> = Vec::new();
        match self {
            XmlNode::Element { children, .. } => {
                let ghost all = node_models(children@);
                let mut i: usize = 0;
                assert(all.subrange(0, 0) =~= Seq::<NodeModel>::empty());
                assert(ref_models(out@) =~= Seq::<NodeModel>::empty());
                while i < children.len()
                    invariant
                        i <= children.len(),
                        all == node_models(children@),
                        ref_models(out@) == elements_among(all.subrange(0, i as int)),
                    decreases children.len() - i,
                {
                    let ghost before = ref_models(out@);
                    assert(all.subrange(0, i + 1).drop_last() =~= all.subrange(0, i as int));
                    assert(all.subrange(0, i + 1).last() == node_model(children@[i as int]));
                    if children[i].is_element() {
                        out.push(&children[i]);
                        assert(ref_models(out@) =~= before.push(node_model(children@[i as int])));
                    }
                    i = i + 1;
                }
                assert(all.subrange(0, i as int) =~= all);
            },
            _ => {
                assert(ref_models(out@) =~= Seq::<NodeModel>::empty());
            },
        }
        out
    }

    /// Select children with specific name.
    pub fn children_named(&self, name: &str) -> (r: Vec<&XmlNode>)
        ensures
            ref_models(r@) == children_named_of(node_model(*self), name@),
    {
        let mut out: Vec<&XmlNode> = Vec::new();
        match self {
            XmlNode::Element { children, .. } => {
                let ghost all = node_models(children@);
                let mut i: usize = 0;
                assert(all.subrange(0, 0) =~= Seq::<NodeModel>::empty());
                assert(ref_models(out@) =~= Seq::<NodeModel>::empty());
                while i < children.len()
                    invariant
                        i <= children.len(),
                        all == node_models(children@),
                        ref_models(out@) == elements_named(all.subrange(0, i as int), name@),
                    decreases children.len() - i,
                {
                    let ghost before = ref_models(out@);
                    assert(all.subrange(0, i + 1).drop_last() =~= all.subrange(0, i as int));
                    assert(all.subrange(0, i + 1).last() == node_model(children@[i as int]));
                    if children[i].is_element() && str_eq(children[i].name(), name) {
                        out.push(&children[i]);
                        assert(ref_models(out@) =~= before.push(node_model(children@[i as int])));
                    }
                    i = i + 1;
                }
                assert(all.subrange(0, i as int) =~= all);
            },
            _ => {
                assert(ref_models(out@) =~= Seq::<NodeModel>::empty());
            },
        }
        out
    }

    /// Get first child with name.
    pub fn child_named(&self, name: &str) -> (r: Option<&XmlNode>)
        ensures
            match r {
                Some(c) => children_named_of(node_model(*self), name@).len() > 0 && node_model(*c)
                    == children_named_of(node_model(*self), name@)[0],
                None => children_named_of(node_model(*self), name@).len() == 0,
            },
    {
        let found = self.children_named(name);
        if found.len() > 0 {
            assert(ref_models(found@)[0] == node_model(*found@[0]));
            Some(found[0])
        } else {
            None
        }
    }

    /// Get all values as a map: every attribute, then every child element
    /// with its text content.
    pub fn attrs(&self) -> (r: AttrMap)
        ensures
            r.fields() == fields_of(node_model(*self)),
    {
        let mut map = AttrMap::new();
        match self {
            XmlNode::Element { attributes, children, .. } => {
                let ghost am = attr_models(attributes@);
                let mut i: usize = 0;
                assert(attribute_pairs(am).subrange(0, 0) =~= map.fields());
                while i < attributes.len()
                    invariant
                        i <= attributes.len(),
                        am == attr_models(attributes@),
                        map.fields() == attribute_pairs(am).subrange(0, i as int),
                    decreases attributes.len() - i,
                {
                    let a = &attributes[i];
                    assert(am[i as int] == attr_model(*a));
                    map.insert(a.name.clone(), a.value.clone());
                    i = i + 1;
                    assert(map.fields() =~= attribute_pairs(am).subrange(0, i as int));
                }
                assert(attribute_pairs(am).subrange(0, i as int) =~= attribute_pairs(am));
                let ghost all = node_models(children@);
                let mut k: usize = 0;
                assert(all.subrange(0, 0) =~= Seq::<NodeModel>::empty());
                assert(map.fields() =~= attribute_pairs(am) + child_pairs(all.subrange(0, 0)));
                while k < children.len()
                    invariant
                        k <= children.len(),
                        all == node_models(children@),
                        map.fields() == attribute_pairs(am) + child_pairs(
                            all.subrange(0, k as int),
                        ),
                    decreases children.len() - k,
                {
                    let ghost before = child_pairs(all.subrange(0, k as int));
                    assert(all.subrange(0, k + 1).drop_last() =~= all.subrange(0, k as int));
                    assert(all.subrange(0, k + 1).last() == node_model(children@[k as int]));
                    if children[k].is_element() {
                        let name = children[k].name().to_owned();
                        let text = children[k].text();
                        map.insert(name, text);
                        assert(map.fields() =~= attribute_pairs(am) + before.push(
                            (name_of(all[k as int]), text_of(all[k as int])),
                        ));
                    }
                    k = k + 1;
                }
                assert(all.subrange(0, k as int) =~= all);
            },
            _ => {},
        }
        map
    }
}

/// The integer that a field's text denotes. Empty text, after trimming,
/// is zero. Text with `e`, `E` or `.` is read in decimal or scientific
/// notation and truncated toward zero; other text as a plain integer.
/// `None` where the text is no such number.
pub open spec fn int_of(text: Seq<char>) -> Option<i64> {
    let t = trimmed(text);
    if t.len() == 0 {
        Some(0)
    } else if t.contains('e') || t.contains('E') || t.contains('.') {
        truncated_decimal(t)
    } else {
        parsed_i64(t)
    }
}

/// Whether `c` occurs in `v`.
pub fn has_char(v: &Vec<char>, c: char) -> (r: bool)
    ensures
        r == v@.contains(c),
{
    proof {
        lemma_find_char(v@, c, 0);
    }
    match find_char_from(v, c, 0) {
        Some(k) => {
            assert(v@[k as int] == c);
            true
        },
        None => false,
    }
}

/// Parse integer.
pub fn parse_int(s: &str) -> (r: Result<i64>)
    ensures
        match r {
            Ok(v) => int_of(s@) == Some(v),
            Err(e) => int_of(s@) is None && (e matches Error::Parse(m) && m@ == (if trimmed(
                s@,
            ).contains('e') || trimmed(s@).contains('E') || trimmed(s@).contains('.') {
                "Invalid number: "@
            } else {
                "Invalid integer: "@
            }) + trimmed(s@)),
        },
{
    let t = trim(&chars_of(s));
    if t.len() == 0 {
        return Ok(0);
    }
    if has_char(&t, 'e') || has_char(&t, 'E') || has_char(&t, '.') {
        match parse_decimal(&t) {
            Some(v) => Ok(v),
            None => Err(Error::Parse(prefixed("Invalid number: ", string_of(&t).as_str()))),
        }
    } else {
        match parse_i64(&t) {
            Some(v) => Ok(v),
            None => Err(Error::Parse(prefixed("Invalid integer: ", string_of(&t).as_str()))),
        }
    }
}

/// Parse a timestamp: the integer that the text denotes, if any.
pub fn parse_timestamp(s: &str) -> (r: Option<i64>)
    ensures
        r == int_of(s@),
{
    match parse_int(s) {
        Ok(v) => Some(v),
        Err(_) => None,
    }
}

/// Whether a field's text stands for true: `1`, or `true` in any case.
pub open spec fn flag_of(text: Seq<char>) -> bool {
    text == "1"@ || lowered(text) == "true"@
}

impl XmlNode {
    /// Get an attribute as integer.
    pub fn attr_int(&self, name: &str) -> (r: Option<i64>)
        ensures
            r == match attr_of(node_model(*self), name@) {
                Some(v) => int_of(v),
                None => None,
            },
    {
        match self.attr(name) {
            Some(v) => parse_timestamp(v.as_str()),
            None => None,
        }
    }

    /// Get an attribute as integer with default.
    pub fn attr_int_or(&self, name: &str, default: i64) -> (r: i64)
        ensures
            r == match attr_of(node_model(*self), name@) {
                Some(v) => match int_of(v) {
                    Some(x) => x,
                    None => default,
                },
                None => default,
            },
    {
        match self.attr_int(name) {
            Some(x) => x,
            None => default,
        }
    }

    /// Get an attribute as boolean.
    pub fn attr_bool(&self, name: &str) -> (r: bool)
        ensures
            r == match attr_of(node_model(*self), name@) {
                Some(v) => flag_of(v),
                None => false,
            },
    {
        match self.attr(name) {
            Some(v) => str_eq(v.as_str(), "1") || str_eq(lowercase(v.as_str()).as_str(), "true"),
            None => false,
        }
    }
}

/// The text between `from` and the next `"`, if there is one.
pub open spec fn quoted_from(s: Seq<char>, from: int) -> Option<Seq<char>> {
    match find_char(s, '"', from) {
        Some(end) => Some(s.subrange(from, end)),
        None => None,
    }
}

/// The error that the server reports inline in a response, as code and
/// message. A response reports one when it holds `__error` or
/// `error code=`. The code is the quoted text after the first `code="`; the
/// message is the quoted text after the first `message="`, decoded, empty
/// when its quote is never closed, and `Unknown error` when there is none.
/// A response with `__error` and no quoted code reports code `-1`.
pub open spec fn server_error(xml: Seq<char>) -> Option<(Seq<char>, Seq<char>)> {
    if !contains_seq(xml, "__error"@) && !contains_seq(xml, "error code="@) {
        None
    } else {
        let coded = match find_seq(xml, "code=\""@, 0) {
            Some(k) => quoted_from(xml, k + 6),
            None => None,
        };
        match coded {
            Some(code) => Some(
                (
                    code,
                    decoded(
                        match find_seq(xml, "message=\""@, 0) {
                            Some(m) => match quoted_from(xml, m + 9) {
                                Some(text) => text,
                                None => Seq::empty(),
                            },
                            None => "Unknown error"@,
                        },
                    ),
                ),
            ),
            None => if contains_seq(xml, "__error"@) {
                Some(("-1"@, "Error response received"@))
            } else {
                None
            },
        }
    }
}

/// Reads the quoted text that starts at `from`.
pub fn read_quoted(v: &Vec<char>, from: usize) -> (r: Option<Vec<char>>)
    requires
        from <= v.len(),
    ensures
        match r {
            Some(t) => quoted_from(v@, from as int) == Some(t@),
            None => quoted_from(v@, from as int) is None,
        },
{
    match find_char_from(v, '"', from) {
        Some(end) => {
            proof {
                lemma_find_char(v@, '"', from as int);
            }
            Some(slice(v, from, end))
        },
        None => None,
    }
}

/// Check if a response contains an inline server error.
pub fn check_nga_error(xml: &str) -> (r: Result<()>)
    ensures
        match r {
            Ok(_) => server_error(xml@) is None,
            Err(e) => server_error(xml@) matches Some((code, message)) && (e matches Error::NGAApi {
                code: c,
                message: m,
            } && c@ == code && m@ == message),
        },
{
    proof {
        reveal_strlit("code=\"");
        reveal_strlit("message=\"");
    }
    let v = chars_of(xml);
    let marked = contains(&v, &chars_of("__error"));
    if !marked && !contains(&v, &chars_of("error code=")) {
        return Ok(());
    }
    let coded = match find_seq_from(&v, &chars_of("code=\""), 0) {
        Some(k) => {
            proof {
                lemma_find_seq(v@, "code=\""@, 0);
            }
            read_quoted(&v, k + 6)
        },
        None => None,
    };
    match coded {
        Some(code) => {
            let message = match find_seq_from(&v, &chars_of("message=\""), 0) {
                Some(m) => {
                    proof {
                        lemma_find_seq(v@, "message=\""@, 0);
                    }
                    match read_quoted(&v, m + 9) {
                        Some(text) => string_of(&text),
                        None => String::new(),
                    }
                },
                None => "Unknown error".to_owned(),
            };
            let message = decode_html(message.as_str());
            Err(Error::NGAApi { code: string_of(&code), message })
        },
        None => {
            if marked {
                Err(Error::nga("-1", "Error response received"))
            } else {
                Ok(())
            }
        },
    }
}

/// The entries that tab-separated text holds: the pieces between tabs are
/// taken in pairs, key then value, both trimmed; a pair with an empty key
/// and a last piece without partner are passed over.
pub open spec fn kv_pairs(pieces: Seq<Seq<char>>, i: int) -> Seq<(Seq<char>, Seq<char>)>
    decreases pieces.len() - i,
{
    if i < 0 || i + 1 >= pieces.len() {
        Seq::empty()
    } else if trimmed(pieces[i]).len() > 0 {
        seq![(trimmed(pieces[i]), trimmed(pieces[i + 1]))] + kv_pairs(pieces, i + 2)
    } else {
        kv_pairs(pieces, i + 2)
    }
}

/// Extract key-value pairs from tab-separated format.
pub fn extract_kv(text: &str) -> (r: AttrMap)
    ensures
        r.fields() == kv_pairs(split(text@, '\t'), 0),
{
    let parts = split_chars(&chars_of(text), '\t');
    let ghost pieces = seqs_of(parts@);
    let mut map = AttrMap::new();
    let mut i: usize = 0;
    assert(map.fields() + kv_pairs(pieces, 0) =~= kv_pairs(pieces, 0));
    while i < parts.len() && parts.len() - i >= 2
        invariant
            i <= parts.len(),
            pieces == seqs_of(parts@),
            kv_pairs(pieces, 0) == map.fields() + kv_pairs(pieces, i as int),
        decreases parts.len() - i,
    {
        let ghost before = map.fields();
        let key = trim(&parts[i]);
        let value = trim(&parts[i + 1]);
        assert(pieces[i as int] == parts@[i as int]@);
        assert(pieces[i + 1] == parts@[i + 1]@);
        if key.len() > 0 {
            map.insert(string_of(&key), string_of(&value));
            assert(before + (seq![(key@, value@)] + kv_pairs(pieces, i + 2)) =~= before.push(
                (key@, value@),
            ) + kv_pairs(pieces, i + 2));
        }
        i = i + 2;
    }
    assert(map.fields() + Seq::<(Seq<char>, Seq<char>)>::empty() =~= map.fields());
    map
}

/// Mathematical model of what a query evaluates to.
pub enum ValueModel {
    /// The matching nodes, in document order.
    Nodes(Seq<NodeModel>),
    /// A string, or a number or a boolean written as one.
    Text(Seq<char>),
}

/// What a query evaluates to.
#[derive(Debug)]
pub enum XPathResult {
    /// The matching nodes, in document order.
    Nodes(Vec<XmlNode>),
    /// A string, or a number or a boolean written as one.
    Text(String),
}

/// The model of a query's value.
pub open spec fn value_model(v: XPathResult) -> ValueModel {
    match v {
        XPathResult::Nodes(nodes) => ValueModel::Nodes(node_models(nodes@)),
        XPathResult::Text(t) => ValueModel::Text(t@),
    }
}

/// The text that a query's value stands for: the text content of the first
/// node, empty when there is none, or the value itself.
pub open spec fn value_text(v: ValueModel) -> Seq<char> {
    match v {
        ValueModel::Nodes(nodes) => if nodes.len() > 0 {
            text_of(nodes[0])
        } else {
            Seq::empty()
        },
        ValueModel::Text(t) => t,
    }
}

impl XPathResult {
    /// Get as string.
    pub fn as_string(&self) -> (r: String)
        ensures
            r@ == value_text(value_model(*self)),
    {
        match self {
            XPathResult::Nodes(nodes) => {
                if nodes.len() > 0 {
                    assert(node_models(nodes@)[0] == node_model(nodes@[0]));
                    nodes[0].text()
                } else {
                    String::new()
                }
            },
            XPathResult::Text(t) => t.clone(),
        }
    }
}

/// A parsed document of `sxd_document`, carried as it is.
#[verifier::external_type_specification]
#[verifier::external_body]
pub struct ExPackage(sxd_document::Package);

/// A node that a query of `sxd_xpath` selects, carried as it is.
#[verifier::external_type_specification]
#[verifier::external_body]
pub struct ExNode<'d>(sxd_xpath::nodeset::Node<'d>);

/// The message with which `sxd_document::parser::parse` rejects a text;
/// `None` for well-formed XML.
pub uninterp spec fn xml_parse_failure(xml: Seq<char>) -> Option<Seq<char>>;

/// The XML text that a parsed document came from.
pub uninterp spec fn document_source(package: sxd_document::Package) -> Seq<char>;

/// One node as a query hands it out, without what is below it: of an
/// element its name, its attributes and the number of its child nodes.
#[derive(Debug)]
pub enum NodeRecord {
    Element { name: String, attributes: Vec<XmlAttribute>, children: usize },
    Text(String),
    Other,
}

/// Mathematical model of a [`NodeRecord`].
pub enum RecordModel {
    Element { name: Seq<char>, attributes: Seq<AttrModel>, children: nat },
    Text(Seq<char>),
    Other,
}

/// The model of one record.
pub open spec fn record_model(r: NodeRecord) -> RecordModel {
    match r {
        NodeRecord::Element { name, attributes, children } => RecordModel::Element {
            name: name@,
            attributes: attr_models(attributes@),
            children: children as nat,
        },
        NodeRecord::Text(t) => RecordModel::Text(t@),
        NodeRecord::Other => RecordModel::Other,
    }
}

/// The models of a list of records.
pub open spec fn record_models(v: Seq<NodeRecord>) -> Seq<RecordModel> {
    Seq::new(v.len(), |i: int| record_model(v[i]))
}

/// What a query evaluates to, before the nodes are put together: for each
/// matching node, the records of the nodes at and below it in document
/// order.
#[derive(Debug)]
pub enum FlatValue {
    Nodes(Vec<Vec<NodeRecord>>),
    Text(String),
}

/// Mathematical model of a [`FlatValue`].
pub enum FlatModel {
    Nodes(Seq<Seq<RecordModel>>),
    Text(Seq<char>),
}

/// The models of the records of several nodes.
pub open spec fn record_lists(v: Seq<Vec<NodeRecord>>) -> Seq<Seq<RecordModel>> {
    Seq::new(v.len(), |i: int| record_models(v[i]@))
}

/// The model of a query's value before the nodes are put together.
pub open spec fn flat_model(v: FlatValue) -> FlatModel {
    match v {
        FlatValue::Nodes(lists) => FlatModel::Nodes(record_lists(lists@)),
        FlatValue::Text(t) => FlatModel::Text(t@),
    }
}

/// Deepest nesting of elements in a document that is read: a text with an
/// element inside more than this many elements, itself counted, is refused.
pub const MAX_NODE_DEPTH: usize = 256;

/// The node whose record stands at `i`, with all that is below it, and the
/// index after its last record. The records of the children of an element
/// follow its own, each child with all that is below it. `None` where the
/// records run out or elements are nested more than `fuel` deep.
pub open spec fn tree_at(r: Seq<RecordModel>, i: int, fuel: nat) -> Option<(NodeModel, int)>
    decreases fuel, 0nat,
{
    if i < 0 || i >= r.len() {
        None
    } else {
        match r[i] {
            RecordModel::Element { name, attributes, children } => if fuel == 0 {
                None
            } else {
                match forest_at(r, i + 1, children, (fuel - 1) as nat) {
                    Some((kids, next)) => Some(
                        (NodeModel::Element { name, attributes, children: kids }, next),
                    ),
                    None => None,
                }
            },
            RecordModel::Text(t) => Some((NodeModel::Text(t), i + 1)),
            RecordModel::Other => Some((NodeModel::Other, i + 1)),
        }
    }
}

/// The `count` nodes whose records stand one after the other from `i` on,
/// and the index after the last record.
pub open spec fn forest_at(r: Seq<RecordModel>, i: int, count: nat, fuel: nat) -> Option<
    (Seq<NodeModel>, int),
>
    decreases fuel, count + 1,
{
    if count == 0 {
        Some((Seq::empty(), i))
    } else {
        match tree_at(r, i, fuel) {
            Some((node, next)) => match forest_at(r, next, (count - 1) as nat, fuel) {
                Some((rest, end)) => Some((seq![node] + rest, end)),
                None => None,
            },
            None => None,
        }
    }
}

/// The node that a list of records stands for: the one at its start.
pub open spec fn tree_of(r: Seq<RecordModel>) -> Option<NodeModel> {
    match tree_at(r, 0, MAX_NODE_DEPTH as nat) {
        Some((node, _)) => Some(node),
        None => None,
    }
}

/// The nodes that the lists of records stand for, if every list stands for
/// one.
pub open spec fn trees_of(lists: Seq<Seq<RecordModel>>) -> Option<Seq<NodeModel>>
    decreases lists.len(),
{
    if lists.len() == 0 {
        Some(Seq::empty())
    } else {
        match (trees_of(lists.drop_last()), tree_of(lists.last())) {
            (Some(nodes), Some(node)) => Some(nodes.push(node)),
            _ => None,
        }
    }
}

/// What evaluating a query comes to.
pub enum Evaluated {
    /// The query has this value.
    Value(FlatModel),
    /// The query compiles to nothing.
    Nothing,
    /// The query does not compile, or its evaluation fails.
    Failure,
}

/// What `sxd_xpath` evaluates the query `expr` to at the root of the
/// document parsed from `source`. The nodes of a node set come in document
/// order, each as the records of the nodes at and below it. Of a failure
/// only the fact is named: where several nodes fail for different reasons,
/// the reason reported is that of the node that the evaluator came to
/// first, and it walks them in no fixed order.
pub uninterp spec fn xpath_value(source: Seq<char>, expr: Seq<char>) -> Evaluated;

/// Parses XML text (`sxd_document::parser::parse`). The text is accepted
/// exactly when it is well-formed; a rejection carries the parser's own
/// message.
#[verifier::external_body]
pub(crate) fn parse_package(xml: &str) -> (r: std::result::Result<sxd_document::Package, String>)
    ensures
        match r {
            Ok(p) => xml_parse_failure(xml@) is None && document_source(p) == xml@,
            Err(e) => xml_parse_failure(xml@) == Some(e@),
        },
{
    sxd_document::parser::parse(xml).map_err(|e| e.to_string())
}

/// Describes one node (`Element::name`, `Element::attributes`,
/// `Element::children`, `Text::text`): an element by the local parts of its
/// name and of its attributes' names and the number of its child nodes, a
/// text node by its text, any other node as `Other`. Nothing is promised
/// here; what a query gives as a whole is named by `xpath_value`.
#[verifier::external_body]
pub(crate) fn record_of(node: sxd_xpath::nodeset::Node<'_>) -> NodeRecord {
    match node {
        sxd_xpath::nodeset::Node::Element(e) => NodeRecord::Element {
            name: e.name().local_part().to_owned(),
            attributes: e.attributes().iter().map(|a| XmlAttribute {
                name: a.name().local_part().to_owned(),
                namespace: a.name().namespace_uri().map(str::to_owned),
                value: a.value().to_owned(),
            }).collect(),
            children: e.children().len(),
        },
        sxd_xpath::nodeset::Node::Text(t) => NodeRecord::Text(t.text().to_owned()),
        _ => NodeRecord::Other,
    }
}

/// Describes the nodes at and below a node, in document order (the query
/// `descendant-or-self::node()` through `sxd_xpath::Factory::build` and
/// `XPath::evaluate`, then `Nodeset::document_order`). Nothing is promised
/// here; what a query gives as a whole is named by `xpath_value`.
#[verifier::external_body]
pub(crate) fn subtree_records(node: sxd_xpath::nodeset::Node<'_>) -> Vec<NodeRecord> {
    let all = sxd_xpath::Factory::new().build("descendant-or-self::node()").ok().flatten();
    match all.map(|path| path.evaluate(&sxd_xpath::Context::new(), node)) {
        Some(Ok(sxd_xpath::Value::Nodeset(ns))) => {
            ns.document_order().into_iter().map(record_of).collect()
        },
        _ => Vec::new(),
    }
}

/// Whether a query, read from `i` on, names a namespace prefix: outside of
/// quoted literals it holds a `:` that is not the first of the two of an
/// axis separator `::`. `quote` is the quote that opened the literal in
/// which `i` stands, if it stands in one.
pub open spec fn names_prefix_from(expr: Seq<char>, i: int, quote: Option<char>) -> bool
    decreases expr.len() - i,
{
    if i < 0 || i >= expr.len() {
        false
    } else {
        match quote {
            Some(q) => names_prefix_from(
                expr,
                i + 1,
                if expr[i] == q {
                    None
                } else {
                    quote
                },
            ),
            None => if expr[i] == '\'' || expr[i] == '"' {
                names_prefix_from(expr, i + 1, Some(expr[i]))
            } else if expr[i] == ':' {
                if i + 1 < expr.len() && expr[i + 1] == ':' {
                    names_prefix_from(expr, i + 2, None)
                } else {
                    true
                }
            } else {
                names_prefix_from(expr, i + 1, None)
            },
        }
    }
}

/// Whether a query names a namespace prefix, as in `/a:b` or `//x:*`.
/// Queries are evaluated without any namespace declared, so that such a
/// query cannot be answered.
pub open spec fn names_prefix(expr: Seq<char>) -> bool {
    names_prefix_from(expr, 0, None)
}

/// Tests whether a query names a namespace prefix.
pub fn has_prefix(expr: &str) -> (r: bool)
    ensures
        r == names_prefix(expr@),
{
    let v = chars_of(expr);
    let mut quote: Option<char> = None;
    let mut i: usize = 0;
    while i < v.len()
        invariant
            i <= v.len(),
            v@ == expr@,
            names_prefix(expr@) == names_prefix_from(expr@, i as int, quote),
        decreases v.len() - i,
    {
        let c = v[i];
        match quote {
            Some(q) => {
                if c == q {
                    quote = None;
                }
                i = i + 1;
            },
            None => {
                if c == '\'' || c == '"' {
                    quote = Some(c);
                    i = i + 1;
                } else if c == ':' {
                    if i + 1 < v.len() && v[i + 1] == ':' {
                        i = i + 2;
                    } else {
                        return true;
                    }
                } else {
                    i = i + 1;
                }
            },
        }
    }
    false
}

/// Whether a query, read from `i` on, holds `word` outside of quoted
/// literals. `quote` is the quote that opened the literal in which `i`
/// stands, if it stands in one.
pub open spec fn holds_from(expr: Seq<char>, word: Seq<char>, i: int, quote: Option<char>) -> bool
    decreases expr.len() - i,
{
    if i < 0 || i >= expr.len() {
        false
    } else {
        match quote {
            Some(q) => holds_from(
                expr,
                word,
                i + 1,
                if expr[i] == q {
                    None
                } else {
                    quote
                },
            ),
            None => if expr[i] == '\'' || expr[i] == '"' {
                holds_from(expr, word, i + 1, Some(expr[i]))
            } else if has_prefix_at(expr, i, word) {
                true
            } else {
                holds_from(expr, word, i + 1, None)
            },
        }
    }
}

/// Whether a query holds `word` outside of quoted literals.
pub open spec fn holds_unquoted(expr: Seq<char>, word: Seq<char>) -> bool {
    holds_from(expr, word, 0, None)
}

/// Tests whether a query holds `word` outside of quoted literals.
pub fn has_unquoted(expr: &Vec<char>, word: &str) -> (r: bool)
    ensures
        r == holds_unquoted(expr@, word@),
{
    let pattern = chars_of(word);
    let mut quote: Option<char> = None;
    let mut i: usize = 0;
    while i < expr.len()
        invariant
            i <= expr.len(),
            pattern@ == word@,
            holds_unquoted(expr@, word@) == holds_from(expr@, word@, i as int, quote),
        decreases expr.len() - i,
    {
        let c = expr[i];
        match quote {
            Some(q) => {
                if c == q {
                    quote = None;
                }
            },
            None => {
                if c == '\'' || c == '"' {
                    quote = Some(c);
                } else if starts_with_at(expr, i, &pattern) {
                    return true;
                }
            },
        }
        i = i + 1;
    }
    false
}

/// Whether a query calls the function `sum`: a function's name stands
/// directly before its opening bracket. The sum of a node set is added up
/// in the order in which the evaluator walks the set, which is not fixed,
/// and the sum of fractions depends on the order: such a query has no one
/// value.
pub open spec fn calls_sum(expr: Seq<char>) -> bool {
    holds_unquoted(expr, "sum("@)
}

/// Whether a query may call the function `name`: it holds `name(`, as it
/// also does where it calls `local-name`. Where several prefixes stand
/// for the namespace of an element, the one that `name` writes is not
/// fixed.
pub open spec fn calls_name(expr: Seq<char>) -> bool {
    holds_unquoted(expr, "name("@)
}

/// Whether a query walks the namespace axis: an axis' name stands
/// directly before `::`. The namespaces of an element have no fixed order
/// among themselves, so that the first of them, and with it the value of
/// such a query, is not fixed.
pub open spec fn walks_namespaces(expr: Seq<char>) -> bool {
    holds_unquoted(expr, "namespace::"@)
}

/// Longest query, in characters, that is evaluated.
pub const MAX_QUERY_LENGTH: usize = 1024;

/// Most opening brackets, round or square, in a query that is evaluated.
/// Every level of nesting in a query opens one, so that this bounds how
/// deep a query nests.
pub const MAX_QUERY_BRACKETS: usize = 32;

/// The number of opening brackets, round or square, in a query.
pub open spec fn brackets_in(expr: Seq<char>) -> nat
    decreases expr.len(),
{
    if expr.len() == 0 {
        0
    } else {
        brackets_in(expr.drop_last()) + if expr.last() == '(' || expr.last() == '[' {
            1nat
        } else {
            0nat
        }
    }
}

/// Counts the opening brackets in a query.
pub fn count_brackets(expr: &Vec<char>) -> (r: usize)
    ensures
        r == brackets_in(expr@),
{
    let mut count: usize = 0;
    let mut i: usize = 0;
    while i < expr.len()
        invariant
            i <= expr.len(),
            count <= i,
            count == brackets_in(expr@.subrange(0, i as int)),
        decreases expr.len() - i,
    {
        assert(expr@.subrange(0, i + 1).drop_last() =~= expr@.subrange(0, i as int));
        if expr[i] == '(' || expr[i] == '[' {
            count = count + 1;
        }
        i = i + 1;
    }
    assert(expr@.subrange(0, i as int) =~= expr@);
    count
}

/// Why a query is not evaluated, if it is not: it is longer than
/// [`MAX_QUERY_LENGTH`], opens more than [`MAX_QUERY_BRACKETS`] brackets,
/// names a namespace prefix, calls the function `sum` or `name`, or walks
/// the namespace axis.
pub open spec fn query_fault(expr: Seq<char>) -> Option<Seq<char>> {
    if expr.len() > MAX_QUERY_LENGTH {
        Some("Query is too long"@)
    } else if brackets_in(expr) > MAX_QUERY_BRACKETS {
        Some("Query is nested too deeply"@)
    } else if names_prefix(expr) {
        Some("Namespace prefixes are not supported"@)
    } else if calls_sum(expr) {
        Some("The function sum() is not supported"@)
    } else if calls_name(expr) {
        Some("The function name() is not supported"@)
    } else if walks_namespaces(expr) {
        Some("The namespace axis is not supported"@)
    } else {
        None
    }
}

/// Tests whether a query can be evaluated, and says why if it cannot.
pub fn check_query(expr: &str) -> (r: Option<String>)
    ensures
        match r {
            Some(m) => query_fault(expr@) == Some(m@),
            None => query_fault(expr@) is None,
        },
{
    let v = chars_of(expr);
    if v.len() > MAX_QUERY_LENGTH {
        Some("Query is too long".to_owned())
    } else if count_brackets(&v) > MAX_QUERY_BRACKETS {
        Some("Query is nested too deeply".to_owned())
    } else if has_prefix(expr) {
        Some("Namespace prefixes are not supported".to_owned())
    } else if has_unquoted(&v, "sum(") {
        Some("The function sum() is not supported".to_owned())
    } else if has_unquoted(&v, "name(") {
        Some("The function name() is not supported".to_owned())
    } else if has_unquoted(&v, "namespace::") {
        Some("The namespace axis is not supported".to_owned())
    } else {
        None
    }
}

/// `n` steps down from the root of a document, each to any child element:
/// `/*` written `n` times.
pub open spec fn steps_down(n: nat) -> Seq<char>
    decreases n,
{
    if n == 0 {
        Seq::empty()
    } else {
        steps_down((n - 1) as nat).push('/').push('*')
    }
}

/// The query for the elements that lie deeper than [`MAX_NODE_DEPTH`].
pub open spec fn depth_probe() -> Seq<char> {
    steps_down((MAX_NODE_DEPTH + 1) as nat)
}

/// Whether no element of the document with the given source lies deeper
/// than [`MAX_NODE_DEPTH`]: the query for such elements finds none.
pub open spec fn is_shallow(source: Seq<char>) -> bool {
    xpath_value(source, depth_probe()) == Evaluated::Value(FlatModel::Nodes(Seq::empty()))
}

/// Writes the query for the elements that lie too deep.
pub fn depth_query() -> (r: String)
    ensures
        r@ == depth_probe(),
{
    let mut v: Vec<char> = Vec::new();
    let mut i: usize = 0;
    while i < MAX_NODE_DEPTH + 1
        invariant
            i <= MAX_NODE_DEPTH + 1,
            v@ == steps_down(i as nat),
        decreases MAX_NODE_DEPTH + 1 - i,
    {
        v.push('/');
        v.push('*');
        i = i + 1;
    }
    string_of(&v)
}

/// A query without a colon names no prefix.
pub proof fn lemma_no_colon_no_prefix(expr: Seq<char>, i: int, quote: Option<char>)
    requires
        0 <= i,
        forall|j: int| i <= j < expr.len() ==> expr[j] != ':',
    ensures
        !names_prefix_from(expr, i, quote),
    decreases expr.len() - i,
{
    if i < expr.len() {
        lemma_no_colon_no_prefix(expr, i + 1, None);
        lemma_no_colon_no_prefix(expr, i + 1, quote);
        lemma_no_colon_no_prefix(expr, i + 1, Some(expr[i]));
    }
}

/// A query without the first character of a word does not hold the word.
pub proof fn lemma_absent_word(expr: Seq<char>, word: Seq<char>, i: int, quote: Option<char>)
    requires
        0 <= i,
        word.len() > 0,
        forall|j: int| i <= j < expr.len() ==> expr[j] != word[0],
    ensures
        !holds_from(expr, word, i, quote),
    decreases expr.len() - i,
{
    if i < expr.len() {
        lemma_absent_word(expr, word, i + 1, None);
        lemma_absent_word(expr, word, i + 1, quote);
        lemma_absent_word(expr, word, i + 1, Some(expr[i]));
        if has_prefix_at(expr, i, word) {
            assert(expr.subrange(i, i + word.len())[0] == word[0]);
        }
    }
}

/// Steps down hold two characters each, no bracket, no colon and no
/// letter.
pub proof fn lemma_steps_down(n: nat)
    ensures
        steps_down(n).len() == 2 * n,
        brackets_in(steps_down(n)) == 0,
        forall|j: int|
            0 <= j < steps_down(n).len() ==> steps_down(n)[j] == '/' || steps_down(n)[j] == '*',
    decreases n,
{
    if n > 0 {
        lemma_steps_down((n - 1) as nat);
        let before = steps_down((n - 1) as nat);
        assert(before.push('/').push('*').drop_last() =~= before.push('/'));
        assert(before.push('/').drop_last() =~= before);
        assert(brackets_in(before.push('/')) == 0);
    }
}

/// The query for the elements that lie too deep can be evaluated.
pub proof fn lemma_probe_is_plain()
    ensures
        query_fault(depth_probe()) is None,
{
    lemma_steps_down((MAX_NODE_DEPTH + 1) as nat);
    lemma_no_colon_no_prefix(depth_probe(), 0, None);
    reveal_strlit("sum(");
    reveal_strlit("name(");
    reveal_strlit("namespace::");
    lemma_absent_word(depth_probe(), "sum("@, 0, None);
    lemma_absent_word(depth_probe(), "name("@, 0, None);
    lemma_absent_word(depth_probe(), "namespace::"@, 0, None);
}

/// Evaluates a query at the root of a parsed document
/// (`sxd_xpath::Factory::build`, then `XPath::evaluate`). The result is
/// that of the query on the document's source text: the matching nodes in
/// document order, each as the records of the nodes at and below it, or
/// the string, number or boolean as text. The query is evaluated in a
/// context without namespaces, in which a name test with a prefix does
/// not return: such queries are left out. The outside code descends once
/// for each level of nesting, of the query when it reads it and of the
/// document when it takes the text of an element: left out are queries
/// that are long or open many brackets, and documents with elements
/// nested deeply, unless the query is the one that looks for such
/// elements, which is answered level by level. Left out as well are
/// queries that call `sum` or `name` or walk the namespace axis, whose
/// value depends on an order that the outside code does not fix. Of a
/// failure nothing is said but that the query fails; the message is the
/// evaluator's.
#[verifier::external_body]
pub(crate) fn evaluate(package: &sxd_document::Package, expr: &str) -> (r: std::result::Result<
    Option<FlatValue>,
    String,
>)
    requires
        query_fault(expr@) is None,
        is_shallow(document_source(*package)) || expr@ == depth_probe(),
    ensures
        match r {
            Ok(Some(v)) => xpath_value(document_source(*package), expr@) == Evaluated::Value(
                flat_model(v),
            ),
            Ok(None) => xpath_value(document_source(*package), expr@) == Evaluated::Nothing,
            Err(_) => xpath_value(document_source(*package), expr@) == Evaluated::Failure,
        },
{
    let path = match sxd_xpath::Factory::new().build(expr).map_err(|e| e.to_string())? {
        Some(p) => p,
        None => return Ok(None),
    };
    let root = package.as_document().root();
    let value = path.evaluate(&sxd_xpath::Context::new(), root).map_err(|e| e.to_string())?;
    Ok(Some(match value {
        sxd_xpath::Value::Nodeset(ns) => FlatValue::Nodes(
            ns.document_order().into_iter().map(subtree_records).collect(),
        ),
        sxd_xpath::Value::String(s) => FlatValue::Text(s),
        sxd_xpath::Value::Number(n) => FlatValue::Text(n.to_string()),
        sxd_xpath::Value::Boolean(b) => FlatValue::Text(b.to_string()),
    }))
}

/// Copies a list of attributes.
pub fn clone_attributes(v: &Vec<XmlAttribute>) -> (r: Vec<XmlAttribute>)
    ensures
        attr_models(r@) == attr_models(v@),
{
    let mut out: Vec<XmlAttribute> = Vec::new();
    let mut i: usize = 0;
    while i < v.len()
        invariant
            i <= v.len(),
            out@.len() == i,
            forall|j: int| 0 <= j < i ==> attr_model(#[trigger] out@[j]) == attr_model(v@[j]),
        decreases v.len() - i,
    {
        let a = &v[i];
        let namespace = match &a.namespace {
            Some(n) => Some(n.clone()),
            None => None,
        };
        out.push(XmlAttribute { name: a.name.clone(), namespace, value: a.value.clone() });
        i = i + 1;
    }
    assert(attr_models(out@) =~= attr_models(v@));
    out
}

/// Puts together the node whose record stands at `i`, with all that is
/// below it.
pub fn read_tree(records: &Vec<NodeRecord>, i: usize, fuel: usize) -> (r: Option<(XmlNode, usize)>)
    ensures
        match r {
            Some((node, next)) => tree_at(record_models(records@), i as int, fuel as nat) == Some(
                (node_model(node), next as int),
            ) && i < next <= records.len(),
            None => tree_at(record_models(records@), i as int, fuel as nat) is None,
        },
    decreases fuel, 0nat,
{
    if i >= records.len() {
        return None;
    }
    assert(record_models(records@)[i as int] == record_model(records@[i as int]));
    match &records[i] {
        NodeRecord::Element { name, attributes, children } => {
            if fuel == 0 {
                return None;
            }
            match read_forest(records, i + 1, *children, fuel - 1) {
                Some((kids, next)) => Some(
                    (
                        XmlNode::Element {
                            name: name.clone(),
                            attributes: clone_attributes(attributes),
                            children: kids,
                        },
                        next,
                    ),
                ),
                None => None,
            }
        },
        NodeRecord::Text(t) => Some((XmlNode::Text(t.clone()), i + 1)),
        NodeRecord::Other => Some((XmlNode::Other, i + 1)),
    }
}

/// `out` with `head` put in front of its nodes.
pub open spec fn with_head(head: Seq<NodeModel>, out: Option<(Seq<NodeModel>, int)>) -> Option<
    (Seq<NodeModel>, int),
> {
    match out {
        Some((rest, end)) => Some((head + rest, end)),
        None => None,
    }
}

/// Puts together the `count` nodes whose records stand from `i` on.
pub fn read_forest(records: &Vec<NodeRecord>, i: usize, count: usize, fuel: usize) -> (r: Option<
    (Vec<XmlNode>, usize),
>)
    requires
        i <= records.len(),
    ensures
        match r {
            Some((nodes, next)) => forest_at(
                record_models(records@),
                i as int,
                count as nat,
                fuel as nat,
            ) == Some((node_models(nodes@), next as int)) && i <= next <= records.len(),
            None => forest_at(record_models(records@), i as int, count as nat, fuel as nat)
                is None,
        },
    decreases fuel, 1nat,
{
    let ghost all = record_models(records@);
    let ghost whole = forest_at(all, i as int, count as nat, fuel as nat);
    let mut out: Vec<XmlNode> = Vec::new();
    let mut at: usize = i;
    let mut left: usize = count;
    proof {
        assert(node_models(out@) =~= Seq::<NodeModel>::empty());
        match whole {
            Some((rest, end)) => {
                assert(Seq::<NodeModel>::empty() + rest =~= rest);
            },
            None => {},
        }
    }
    while left > 0
        invariant
            i <= at <= records.len(),
            all == record_models(records@),
            whole == forest_at(all, i as int, count as nat, fuel as nat),
            whole == with_head(node_models(out@), forest_at(all, at as int, left as nat, fuel as nat)),
        decreases left,
    {
        let ghost before = node_models(out@);
        match read_tree(records, at, fuel) {
            Some((node, next)) => {
                out.push(node);
                proof {
                    assert(node_models(out@) =~= before.push(node_model(node)));
                    match forest_at(all, next as int, (left - 1) as nat, fuel as nat) {
                        Some((rest, end)) => {
                            assert(before + (seq![node_model(node)] + rest) =~= before.push(
                                node_model(node),
                            ) + rest);
                        },
                        None => {},
                    }
                }
                at = next;
                left = left - 1;
            },
            None => {
                assert(forest_at(all, at as int, left as nat, fuel as nat) is None);
                return None;
            },
        }
    }
    assert(node_models(out@) + Seq::<NodeModel>::empty() =~= node_models(out@));
    Some((out, at))
}

/// Puts together the nodes that the lists of records stand for.
pub fn read_trees(lists: &Vec<Vec<NodeRecord>>) -> (r: Option<Vec<XmlNode>>)
    ensures
        match r {
            Some(nodes) => trees_of(record_lists(lists@)) == Some(node_models(nodes@)),
            None => trees_of(record_lists(lists@)) is None,
        },
{
    let ghost all = record_lists(lists@);
    let mut out: Vec<XmlNode> = Vec::new();
    let mut i: usize = 0;
    assert(all.subrange(0, 0) =~= Seq::<Seq<RecordModel>>::empty());
    assert(node_models(out@) =~= Seq::<NodeModel>::empty());
    while i < lists.len()
        invariant
            i <= lists.len(),
            all == record_lists(lists@),
            trees_of(all.subrange(0, i as int)) == Some(node_models(out@)),
        decreases lists.len() - i,
    {
        let ghost before = node_models(out@);
        assert(all.subrange(0, i + 1).drop_last() =~= all.subrange(0, i as int));
        assert(all.subrange(0, i + 1).last() == record_models(lists@[i as int]@));
        match read_tree(&lists[i], 0, MAX_NODE_DEPTH) {
            Some((node, _)) => {
                out.push(node);
                assert(node_models(out@) =~= before.push(node_model(node)));
            },
            None => {
                proof {
                    lemma_trees_fail(all, i as int);
                }
                return None;
            },
        }
        i = i + 1;
    }
    assert(all.subrange(0, i as int) =~= all);
    Some(out)
}

/// Where one list stands for no node, the lists as a whole stand for none.
pub proof fn lemma_trees_fail(lists: Seq<Seq<RecordModel>>, i: int)
    requires
        0 <= i < lists.len(),
        tree_of(lists[i]) is None,
    ensures
        trees_of(lists) is None,
    decreases lists.len(),
{
    if i < lists.len() - 1 {
        lemma_trees_fail(lists.drop_last(), i);
    }
}

/// Tests whether a text is well-formed XML.
pub fn is_well_formed(xml: &str) -> (r: bool)
    ensures
        r == xml_parse_failure(xml@) is None,
{
    parse_package(xml).is_ok()
}

/// Why a query gives no value.
pub enum QueryFailure {
    /// The query fails with this message.
    Stated(Seq<char>),
    /// The query does not compile, or its evaluation fails: the message is
    /// the evaluator's.
    Evaluation,
}

/// What evaluating `expr` on the document with the given source gives, or
/// why it fails. A query that is not evaluated fails with the reason (see
/// [`query_fault`]), one that compiles to nothing with `Empty XPath`, and
/// one whose nodes cannot be put together within [`MAX_NODE_DEPTH`] levels
/// with `Nodes are nested too deeply`.
pub open spec fn query_value(source: Seq<char>, expr: Seq<char>) -> std::result::Result<
    ValueModel,
    QueryFailure,
> {
    if let Some(fault) = query_fault(expr) {
        Err(QueryFailure::Stated(fault))
    } else {
        match xpath_value(source, expr) {
            Evaluated::Value(FlatModel::Nodes(lists)) => match trees_of(lists) {
                Some(nodes) => Ok(ValueModel::Nodes(nodes)),
                None => Err(QueryFailure::Stated("Nodes are nested too deeply"@)),
            },
            Evaluated::Value(FlatModel::Text(t)) => Ok(ValueModel::Text(t)),
            Evaluated::Nothing => Err(QueryFailure::Stated("Empty XPath"@)),
            Evaluated::Failure => Err(QueryFailure::Evaluation),
        }
    }
}

/// The nodes that `expr` selects: those of a node set, none for any other
/// value.
pub open spec fn query_nodes(source: Seq<char>, expr: Seq<char>) -> std::result::Result<
    Seq<NodeModel>,
    QueryFailure,
> {
    match query_value(source, expr) {
        Ok(ValueModel::Nodes(nodes)) => Ok(nodes),
        Ok(ValueModel::Text(_)) => Ok(Seq::empty()),
        Err(e) => Err(e),
    }
}

/// The text that `expr` gives, if the query succeeds and the text is not
/// empty.
pub open spec fn query_text(source: Seq<char>, expr: Seq<char>) -> Option<Seq<char>> {
    match query_value(source, expr) {
        Ok(v) => if value_text(v).len() > 0 {
            Some(value_text(v))
        } else {
            None
        },
        Err(_) => None,
    }
}

/// The integer that `expr` gives, or `default` where the query fails or
/// its text is no number.
pub open spec fn query_int_or(source: Seq<char>, expr: Seq<char>, default: i64) -> i64 {
    match query_value(source, expr) {
        Ok(v) => match int_of(value_text(v)) {
            Some(x) => x,
            None => default,
        },
        Err(_) => default,
    }
}

/// Whether `e` is the error with which reading `xml` as a document fails:
/// the server's inline error if it reports one, else the parser's, else
/// that elements are nested too deeply.
pub open spec fn is_document_error(xml: Seq<char>, e: Error) -> bool {
    match e {
        Error::NGAApi { code, message } => server_error(xml) == Some((code@, message@)),
        Error::Xml(m) => server_error(xml) is None && match xml_parse_failure(xml) {
            Some(failure) => m@ == failure,
            None => !is_shallow(xml) && m@ == "Elements are nested too deeply"@,
        },
        _ => false,
    }
}

/// Whether `xml` reads as a document: it reports no error, is well-formed
/// and has no element nested deeper than [`MAX_NODE_DEPTH`].
pub open spec fn is_document(xml: Seq<char>) -> bool {
    server_error(xml) is None && xml_parse_failure(xml) is None && is_shallow(xml)
}

/// Whether `e` is an error with which the query `expr` fails on `xml`: a
/// query error, with the stated message where one is stated.
pub open spec fn is_query_error(xml: Seq<char>, expr: Seq<char>, e: Error) -> bool {
    e matches Error::XPath(m) && match query_value(xml, expr) {
        Err(QueryFailure::Stated(stated)) => m@ == stated,
        Err(QueryFailure::Evaluation) => true,
        Ok(_) => false,
    }
}

/// Wrapper around an XML document providing convenient access methods.
pub struct XmlDocument {
    package: sxd_document::Package,
}

impl XmlDocument {
    /// No element of a document is nested deeper than [`MAX_NODE_DEPTH`].
    #[verifier::type_invariant]
    spec fn shallow(&self) -> bool {
        is_shallow(document_source(self.package))
    }

    /// The XML text of the document.
    pub closed spec fn source(&self) -> Seq<char> {
        document_source(self.package)
    }

    /// Parse XML text into a document. An inline server error is reported
    /// before the text is parsed. A well-formed text with elements nested
    /// deeper than [`MAX_NODE_DEPTH`] is refused.
    pub fn parse(xml: &str) -> (r: Result<Self>)
        ensures
            match r {
                Ok(doc) => is_document(xml@) && doc.source() == xml@,
                Err(e) => is_document_error(xml@, e),
            },
    {
        match check_nga_error(xml) {
            Ok(_) => {},
            Err(e) => {
                return Err(e);
            },
        }
        let package = match parse_package(xml) {
            Ok(package) => package,
            Err(e) => {
                return Err(Error::Xml(e));
            },
        };
        let probe = depth_query();
        proof {
            lemma_probe_is_plain();
        }
        let found = match evaluate(&package, probe.as_str()) {
            Ok(Some(FlatValue::Nodes(lists))) => {
                assert(lists.len() == 0 ==> record_lists(lists@) =~= Seq::<
                    Seq<RecordModel>,
                >::empty());
                assert(lists.len() > 0 ==> record_lists(lists@).len() > 0);
                lists.len() > 0
            },
            _ => true,
        };
        if found {
            Err(Error::Xml("Elements are nested too deeply".to_owned()))
        } else {
            Ok(XmlDocument { package })
        }
    }

    /// Evaluate an XPath expression. A query that is too long, opens too
    /// many brackets or names a namespace prefix fails without being
    /// evaluated.
    pub fn xpath(&self, expr: &str) -> (r: Result<XPathResult>)
        ensures
            match r {
                Ok(v) => query_value(self.source(), expr@) == Ok::<ValueModel, QueryFailure>(
                    value_model(v),
                ),
                Err(e) => is_query_error(self.source(), expr@, e),
            },
    {
        if let Some(fault) = check_query(expr) {
            return Err(Error::XPath(fault));
        }
        proof {
            use_type_invariant(self);
        }
        match evaluate(&self.package, expr) {
            Ok(Some(FlatValue::Nodes(lists))) => match read_trees(&lists) {
                Some(nodes) => Ok(XPathResult::Nodes(nodes)),
                None => Err(Error::XPath("Nodes are nested too deeply".to_owned())),
            },
            Ok(Some(FlatValue::Text(t))) => Ok(XPathResult::Text(t)),
            Ok(None) => Err(Error::XPath("Empty XPath".to_owned())),
            Err(e) => Err(Error::XPath(e)),
        }
    }

    /// Select all matching nodes.
    pub fn select(&self, expr: &str) -> (r: Result<Vec<XmlNode>>)
        ensures
            match r {
                Ok(nodes) => query_nodes(self.source(), expr@) == Ok::<Seq<NodeModel>, QueryFailure>(
                    node_models(nodes@),
                ),
                Err(e) => is_query_error(self.source(), expr@, e),
            },
    {
        match self.xpath(expr) {
            Ok(XPathResult::Nodes(nodes)) => Ok(nodes),
            Ok(XPathResult::Text(_)) => {
                let none: Vec<XmlNode> = Vec::new();
                assert(node_models(none@) =~= Seq::<NodeModel>::empty());
                Ok(none)
            },
            Err(e) => Err(e),
        }
    }

    /// Select the first matching node.
    pub fn select_one(&self, expr: &str) -> (r: Result<Option<XmlNode>>)
        ensures
            match r {
                Ok(Some(node)) => query_nodes(self.source(), expr@) matches Ok(nodes)
                    && nodes.len() > 0 && nodes[0] == node_model(node),
                Ok(None) => query_nodes(self.source(), expr@) matches Ok(nodes) && nodes.len()
                    == 0,
                Err(e) => is_query_error(self.source(), expr@, e),
            },
    {
        match self.select(expr) {
            Ok(mut nodes) => {
                if nodes.len() > 0 {
                    let ghost first = node_models(nodes@)[0];
                    assert(first == node_model(nodes@[0]));
                    let node = nodes.swap_remove(0);
                    Ok(Some(node))
                } else {
                    Ok(None)
                }
            },
            Err(e) => Err(e),
        }
    }

    /// Get a string value from an XPath.
    pub fn string(&self, expr: &str) -> (r: Result<String>)
        ensures
            match r {
                Ok(t) => query_value(self.source(), expr@) matches Ok(v) && t@ == value_text(v),
                Err(e) => is_query_error(self.source(), expr@, e),
            },
    {
        match self.xpath(expr) {
            Ok(v) => Ok(v.as_string()),
            Err(e) => Err(e),
        }
    }

    /// Get an optional string from an XPath.
    pub fn string_opt(&self, expr: &str) -> (r: Option<String>)
        ensures
            match r {
                Some(t) => query_text(self.source(), expr@) == Some(t@),
                None => query_text(self.source(), expr@) is None,
            },
    {
        match self.string(expr) {
            Ok(t) => if t.as_str().is_empty() {
                None
            } else {
                Some(t)
            },
            Err(_) => None,
        }
    }

    /// Get an integer from an XPath.
    pub fn integer(&self, expr: &str) -> (r: Result<i64>)
        ensures
            match r {
                Ok(x) => query_value(self.source(), expr@) matches Ok(v) && int_of(value_text(v))
                    == Some(x),
                Err(Error::Parse(_)) => query_value(self.source(), expr@) matches Ok(v) && int_of(
                    value_text(v),
                ) is None,
                Err(e) => is_query_error(self.source(), expr@, e),
            },
    {
        match self.string(expr) {
            Ok(t) => parse_int(t.as_str()),
            Err(e) => Err(e),
        }
    }

    /// Get an integer with default.
    pub fn int_or(&self, expr: &str, default: i64) -> (r: i64)
        ensures
            r == query_int_or(self.source(), expr@, default),
    {
        match self.integer(expr) {
            Ok(x) => x,
            Err(_) => default,
        }
    }
}

} // verus!
