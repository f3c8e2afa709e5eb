//! Forum API: requests and response mappers.

use crate::api::fields::{
    either_field, get_either, get_i32_or, get_nonzero, get_text, i32_or, nonzero_field,
    text_of_field, Fields,
};
use crate::error::Result;
use crate::models::forum::{icon_url, icon_url_of, Category, Forum, ForumIdKind};
use crate::models::topic::FavoriteFolder;
use crate::parser::xml::{
    children_named_of, fields_of, is_document, is_document_error, is_query_error, lookup,
    node_model, node_models, query_nodes, ref_models, NodeModel, XmlDocument, XmlNode,
};
use vstd::prelude::*;

verus! {

/// Whether `k` is the identifier that the fields give a forum: `stid`
/// where it is present and not zero, else `fid` likewise, else none.
pub open spec fn is_forum_id_of(k: Option<ForumIdKind>, f: Fields) -> bool {
    match nonzero_field(f, "stid"@) {
        Some(v) => k is Some && k->0 is Stid && k->0.raw() == v,
        None => match nonzero_field(f, "fid"@) {
            Some(v) => k is Some && k->0 is Fid && k->0.raw() == v,
            None => k is None,
        },
    }
}

/// Whether `forum` is the forum that the fields describe. Its icon goes by
/// `id`, or by `fid` where there is no `id`.
pub open spec fn is_forum(forum: Forum, f: Fields) -> bool {
    &&& is_forum_id_of(forum.id, f)
    &&& Some(forum.name@) == lookup(f, "name"@)
    &&& forum.info@ == text_of_field(f, "info"@)
    &&& forum.icon_url@ == icon_url_of(
        match either_field(f, "id"@, "fid"@) {
            Some(v) => v,
            None => Seq::empty(),
        },
    )
    &&& forum.topped_topic_id@ == text_of_field(f, "topped_topic"@)
}

/// Parse forum from XML node. A node without `name` is no forum.
pub fn parse_forum(node: &XmlNode) -> (r: Result<Option<Forum>>)
    ensures
        match r {
            Ok(Some(forum)) => is_forum(forum, fields_of(node_model(*node))),
            Ok(None) => lookup(fields_of(node_model(*node)), "name"@) is None,
            Err(_) => false,
        },
{
    let attrs = node.attrs();
    let icon_id = match get_either(&attrs, "id", "fid") {
        Some(v) => v,
        None => String::new(),
    };
    let id = match get_nonzero(&attrs, "stid") {
        Some(v) => Some(ForumIdKind::stid(v.as_str())),
        None => match get_nonzero(&attrs, "fid") {
            Some(v) => Some(ForumIdKind::fid(v.as_str())),
            None => None,
        },
    };
    let name = match attrs.get("name") {
        Some(n) => n.clone(),
        None => {
            return Ok(None);
        },
    };
    Ok(
        Some(
            Forum {
                id,
                name,
                info: get_text(&attrs, "info"),
                icon_url: icon_url(icon_id.as_str()),
                topped_topic_id: get_text(&attrs, "topped_topic"),
            },
        ),
    )
}

/// Whether `out` lists, in order, the forums of those among `nodes` that
/// have a `name`.
pub open spec fn are_forums(nodes: Seq<NodeModel>, out: Seq<Forum>) -> bool
    decreases nodes.len(),
{
    if nodes.len() == 0 {
        out.len() == 0
    } else if lookup(fields_of(nodes.last()), "name"@) is Some {
        &&& out.len() > 0
        &&& is_forum(out.last(), fields_of(nodes.last()))
        &&& are_forums(nodes.drop_last(), out.drop_last())
    } else {
        are_forums(nodes.drop_last(), out)
    }
}

/// The child elements named `name` of all the `nodes`, in order.
pub open spec fn all_named(nodes: Seq<NodeModel>, name: Seq<char>) -> Seq<NodeModel>
    decreases nodes.len(),
{
    if nodes.len() == 0 {
        Seq::empty()
    } else {
        all_named(nodes.drop_last(), name) + children_named_of(nodes.last(), name)
    }
}

/// The nodes that hold a category's forums: the `item`s in the `forums` of
/// the `item`s of its `groups`.
pub open spec fn category_forum_nodes(m: NodeModel) -> Seq<NodeModel> {
    all_named(
        all_named(all_named(children_named_of(m, "groups"@), "item"@), "forums"@),
        "item"@,
    )
}

/// Collects the child elements named `name` of all the `nodes`.
pub fn collect_named<'a>(nodes: &Vec<&'a XmlNode>, name: &str) -> (r: Vec<&'a XmlNode>)
    ensures
        ref_models(r@) == all_named(ref_models(nodes@), name@),
{
    let ghost all = ref_models(nodes@);
    let mut out: Vec<&'a XmlNode> = Vec::new();
    let mut i: usize = 0;
    assert(all.subrange(0, 0) =~= Seq::<NodeModel>::empty());
    assert(ref_models(out@) =~= Seq::<NodeModel>::empty());
    while i < nodes.len()
        invariant
            i <= nodes.len(),
            all == ref_models(nodes@),
            ref_models(out@) == all_named(all.subrange(0, i as int), name@),
        decreases nodes.len() - i,
    {
        assert(all.subrange(0, i + 1).drop_last() =~= all.subrange(0, i as int));
        assert(all.subrange(0, i + 1).last() == node_model(*nodes@[i as int]));
        let found = nodes[i].children_named(name);
        let ghost before = ref_models(out@);
        let mut k: usize = 0;
        assert(before + ref_models(found@).subrange(0, 0) =~= before);
        while k < found.len()
            invariant
                k <= found.len(),
                ref_models(out@) == before + ref_models(found@).subrange(0, k as int),
            decreases found.len() - k,
        {
            let ghost prev = ref_models(out@);
            out.push(found[k]);
            assert(ref_models(out@) =~= prev.push(node_model(*found@[k as int])));
            assert(ref_models(found@).subrange(0, k + 1) =~= ref_models(found@).subrange(
                0,
                k as int,
            ).push(node_model(*found@[k as int])));
            k = k + 1;
            assert(ref_models(out@) =~= before + ref_models(found@).subrange(0, k as int));
        }
        assert(ref_models(found@).subrange(0, k as int) =~= ref_models(found@));
        i = i + 1;
    }
    assert(all.subrange(0, i as int) =~= all);
    out
}

/// Maps forum nodes, in order, passing over those without a name.
pub fn forums_from_refs(nodes: &Vec<&XmlNode>) -> (r: Vec<Forum>)
    ensures
        are_forums(ref_models(nodes@), r@),
{
    let ghost all = ref_models(nodes@);
    let mut out: Vec<Forum> = Vec::new();
    let mut i: usize = 0;
    assert(all.subrange(0, 0) =~= Seq::<NodeModel>::empty());
    while i < nodes.len()
        invariant
            i <= nodes.len(),
            all == ref_models(nodes@),
            are_forums(all.subrange(0, i as int), out@),
        decreases nodes.len() - i,
    {
        let ghost before = out@;
        assert(all.subrange(0, i + 1).drop_last() =~= all.subrange(0, i as int));
        assert(all.subrange(0, i + 1).last() == node_model(*nodes@[i as int]));
        match parse_forum(nodes[i]) {
            Ok(Some(forum)) => {
                out.push(forum);
                assert(out@.drop_last() =~= before);
            },
            _ => {},
        }
        i = i + 1;
    }
    assert(all.subrange(0, i as int) =~= all);
    out
}

/// Maps forum nodes, in order, passing over those without a name.
pub fn forums_from(nodes: &Vec<XmlNode>) -> (r: Vec<Forum>)
    ensures
        are_forums(node_models(nodes@), r@),
{
    let mut refs: Vec<&XmlNode> = Vec::new();
    let mut i: usize = 0;
    while i < nodes.len()
        invariant
            i <= nodes.len(),
            refs@.len() == i,
            forall|j: int| 0 <= j < i ==> *(#[trigger] refs@[j]) == nodes@[j],
        decreases nodes.len() - i,
    {
        refs.push(&nodes[i]);
        i = i + 1;
    }
    assert(ref_models(refs@) =~= node_models(nodes@));
    forums_from_refs(&refs)
}

/// Whether the fields describe a category: they hold `_id` and `name`.
pub open spec fn has_category_ids(f: Fields) -> bool {
    lookup(f, "_id"@) is Some && lookup(f, "name"@) is Some
}

/// Whether `c` is the category that the node describes.
pub open spec fn is_category(c: Category, m: NodeModel) -> bool {
    &&& Some(c.id@) == lookup(fields_of(m), "_id"@)
    &&& Some(c.name@) == lookup(fields_of(m), "name"@)
    &&& are_forums(category_forum_nodes(m), c.forums@)
}

/// Parse category from XML node. A node without `_id` or `name` is no
/// category.
pub fn parse_category(node: &XmlNode) -> (r: Result<Option<Category>>)
    ensures
        match r {
            Ok(Some(c)) => has_category_ids(fields_of(node_model(*node))) && is_category(
                c,
                node_model(*node),
            ),
            Ok(None) => !has_category_ids(fields_of(node_model(*node))),
            Err(_) => false,
        },
{
    let attrs = node.attrs();
    let id = match attrs.get("_id") {
        Some(id) => id.clone(),
        None => {
            return Ok(None);
        },
    };
    let name = match attrs.get("name") {
        Some(name) => name.clone(),
        None => {
            return Ok(None);
        },
    };
    let groups = node.children_named("groups");
    let items = collect_named(&groups, "item");
    let holders = collect_named(&items, "forums");
    let forum_nodes = collect_named(&holders, "item");
    Ok(Some(Category { id, name, forums: forums_from_refs(&forum_nodes) }))
}

/// Whether `out` lists, in order, the categories of those among `nodes`
/// that hold `_id` and `name`.
pub open spec fn are_categories(nodes: Seq<NodeModel>, out: Seq<Category>) -> bool
    decreases nodes.len(),
{
    if nodes.len() == 0 {
        out.len() == 0
    } else if has_category_ids(fields_of(nodes.last())) {
        &&& out.len() > 0
        &&& is_category(out.last(), nodes.last())
        &&& are_categories(nodes.drop_last(), out.drop_last())
    } else {
        are_categories(nodes.drop_last(), out)
    }
}

/// Maps the response to a request for all forum categories.
pub fn parse_category_list(xml: &str) -> (r: Result<Vec<Category>>)
    ensures
        match r {
            Ok(found) => is_document(xml@) && (query_nodes(xml@, "/root/data/item"@) matches Ok(
                nodes,
            ) && are_categories(nodes, found@)),
            Err(e) => is_document_error(xml@, e) || (is_document(xml@) && is_query_error(
                xml@,
                "/root/data/item"@,
                e,
            )),
        },
{
    let doc = match XmlDocument::parse(xml) {
        Ok(d) => d,
        Err(e) => {
            return Err(e);
        },
    };
    let nodes = match doc.select("/root/data/item") {
        Ok(n) => n,
        Err(e) => {
            return Err(e);
        },
    };
    let ghost all = node_models(nodes@);
    let mut out: Vec<Category> = Vec::new();
    let mut i: usize = 0;
    assert(all.subrange(0, 0) =~= Seq::<NodeModel>::empty());
    while i < nodes.len()
        invariant
            i <= nodes.len(),
            all == node_models(nodes@),
            are_categories(all.subrange(0, i as int), out@),
        decreases nodes.len() - i,
    {
        let ghost before = out@;
        assert(all.subrange(0, i + 1).drop_last() =~= all.subrange(0, i as int));
        assert(all.subrange(0, i + 1).last() == node_model(nodes@[i as int]));
        match parse_category(&nodes[i]) {
            Ok(Some(c)) => {
                out.push(c);
                assert(out@.drop_last() =~= before);
            },
            _ => {},
        }
        i = i + 1;
    }
    assert(all.subrange(0, i as int) =~= all);
    Ok(out)
}

/// Maps a response that lists forums at the query `path`.
pub fn parse_forum_list(xml: &str, path: &str) -> (r: Result<Vec<Forum>>)
    ensures
        match r {
            Ok(found) => is_document(xml@) && (query_nodes(xml@, path@) matches Ok(nodes)
                && are_forums(nodes, found@)),
            Err(e) => is_document_error(xml@, e) || (is_document(xml@) && is_query_error(
                xml@,
                path@,
                e,
            )),
        },
{
    let doc = match XmlDocument::parse(xml) {
        Ok(d) => d,
        Err(e) => {
            return Err(e);
        },
    };
    match doc.select(path) {
        Ok(nodes) => Ok(forums_from(&nodes)),
        Err(e) => Err(e),
    }
}

/// Whether `folder` is the favorite folder that the fields describe.
pub open spec fn is_folder(folder: FavoriteFolder, f: Fields) -> bool {
    &&& Some(folder.id@) == lookup(f, "id"@)
    &&& folder.name@ == text_of_field(f, "name"@)
    &&& folder.count == i32_or(f, "length"@, 0)
}

/// Whether `out` lists, in order, the folders of those among `nodes` that
/// have an `id`.
pub open spec fn are_folders(nodes: Seq<NodeModel>, out: Seq<FavoriteFolder>) -> bool
    decreases nodes.len(),
{
    if nodes.len() == 0 {
        out.len() == 0
    } else if lookup(fields_of(nodes.last()), "id"@) is Some {
        &&& out.len() > 0
        &&& is_folder(out.last(), fields_of(nodes.last()))
        &&& are_folders(nodes.drop_last(), out.drop_last())
    } else {
        are_folders(nodes.drop_last(), out)
    }
}

/// Maps one node of the list of favorite folders.
pub fn parse_folder(node: &XmlNode) -> (r: Option<FavoriteFolder>)
    ensures
        match r {
            Some(folder) => is_folder(folder, fields_of(node_model(*node))),
            None => lookup(fields_of(node_model(*node)), "id"@) is None,
        },
{
    let attrs = node.attrs();
    match attrs.get("id") {
        Some(id) => Some(
            FavoriteFolder {
                id: id.clone(),
                name: get_text(&attrs, "name"),
                count: get_i32_or(&attrs, "length", 0),
            },
        ),
        None => None,
    }
}

/// Maps the response to a request for the favorite folders.
pub fn parse_favorite_folders(xml: &str) -> (r: Result<Vec<FavoriteFolder>>)
    ensures
        match r {
            Ok(found) => is_document(xml@) && (query_nodes(xml@, "/root/data/item/item"@)
                matches Ok(nodes) && are_folders(nodes, found@)),
            Err(e) => is_document_error(xml@, e) || (is_document(xml@) && is_query_error(
                xml@,
                "/root/data/item/item"@,
                e,
            )),
        },
{
    let doc = match XmlDocument::parse(xml) {
        Ok(d) => d,
        Err(e) => {
            return Err(e);
        },
    };
    let nodes = match doc.select("/root/data/item/item") {
        Ok(n) => n,
        Err(e) => {
            return Err(e);
        },
    };
    let ghost all = node_models(nodes@);
    let mut out: Vec<FavoriteFolder> = Vec::new();
    let mut i: usize = 0;
    assert(all.subrange(0, 0) =~= Seq::<NodeModel>::empty());
    while i < nodes.len()
        invariant
            i <= nodes.len(),
            all == node_models(nodes@),
            are_folders(all.subrange(0, i as int), out@),
        decreases nodes.len() - i,
    {
        let ghost before = out@;
        assert(all.subrange(0, i + 1).drop_last() =~= all.subrange(0, i as int));
        assert(all.subrange(0, i + 1).last() == node_model(nodes@[i as int]));
        match parse_folder(&nodes[i]) {
            Some(folder) => {
                out.push(folder);
                assert(out@.drop_last() =~= before);
            },
            None => {},
        }
        i = i + 1;
    }
    assert(all.subrange(0, i as int) =~= all);
    Ok(out)
}

} // verus!
