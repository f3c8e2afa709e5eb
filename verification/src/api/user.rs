//! User API: requests and response mappers.

use crate::api::fields::{
    get_i32_or, get_i64, get_opt, i32_or, i64_field, opt_view, Fields,
};
use crate::error::{Error, Result};
use crate::models::ids::UserId;
use crate::models::user::{name_of_raw, view_opt, NameModel, User, UserModel, UserName};
use crate::parser::xml::{
    fields_of, is_document, is_document_error, is_query_error, lookup, node_model, node_models,
    query_nodes, AttrMap, NodeModel, XmlDocument, XmlNode,
};
use crate::text::str_eq;
use vstd::prelude::*;

verus! {

/// The name that the field `key` gives: anonymous where there is none.
pub open spec fn name_field(f: Fields, key: Seq<char>) -> NameModel {
    match lookup(f, key) {
        Some(v) => name_of_raw(v),
        None => NameModel::Anonymous,
    }
}

/// The user with the identifier `id` that a node's fields describe.
/// Missing fields are zero or absent. A user is an administrator unless
/// `admincheck` is `0`, a moderator when `groupid` is `5` or `6`, and muted
/// when `mute` is a positive timestamp, however long ago.
pub open spec fn user_of(id: Seq<char>, f: Fields) -> UserModel {
    UserModel {
        id,
        name: name_field(f, "username"@),
        avatar_url: lookup(f, "avatar"@),
        reputation: i32_or(f, "fame"@, 0),
        posts: i32_or(f, "postnum"@, 0),
        reg_date: crate::api::fields::i64_or(f, "regdate"@, 0),
        signature: lookup(f, "signature"@),
        is_admin: match lookup(f, "admincheck"@) {
            Some(v) => v != "0"@,
            None => false,
        },
        is_mod: match lookup(f, "groupid"@) {
            Some(v) => v == "5"@ || v == "6"@,
            None => false,
        },
        is_muted: match i64_field(f, "mute"@) {
            Some(t) => t > 0,
            None => false,
        },
        honor: lookup(f, "honor"@),
    }
}

/// Reads the name in the field `key`.
pub fn get_name(attrs: &AttrMap, key: &str) -> (r: UserName)
    ensures
        r.model() == name_field(attrs.fields(), key@),
{
    match attrs.get(key) {
        Some(v) => UserName::parse(v.as_str()),
        None => UserName::Anonymous,
    }
}

/// Builds the user with the identifier `id` from a node's fields.
pub fn user_from_fields(id: UserId, attrs: &AttrMap) -> (r: User)
    ensures
        r.model() == user_of(id.0@, attrs.fields()),
{
    let is_admin = match attrs.get("admincheck") {
        Some(v) => !str_eq(v.as_str(), "0"),
        None => false,
    };
    let is_mod = match attrs.get("groupid") {
        Some(v) => str_eq(v.as_str(), "5") || str_eq(v.as_str(), "6"),
        None => false,
    };
    let is_muted = match get_i64(attrs, "mute") {
        Some(t) => t > 0,
        None => false,
    };
    let avatar_url = get_opt(attrs, "avatar");
    let signature = get_opt(attrs, "signature");
    let honor = get_opt(attrs, "honor");
    assert(view_opt(avatar_url) == opt_view(avatar_url));
    assert(view_opt(signature) == opt_view(signature));
    assert(view_opt(honor) == opt_view(honor));
    User {
        id,
        name: get_name(attrs, "username"),
        avatar_url,
        reputation: get_i32_or(attrs, "fame", 0),
        posts: get_i32_or(attrs, "postnum", 0),
        reg_date: crate::api::fields::get_i64_or(attrs, "regdate", 0),
        signature,
        is_admin,
        is_mod,
        is_muted,
        honor,
    }
}

/// Maps one user node. A node without `uid` is no user.
pub fn parse_user(node: &XmlNode) -> (r: Result<Option<User>>)
    ensures
        match r {
            Ok(Some(u)) => lookup(fields_of(node_model(*node)), "uid"@) matches Some(id)
                && u.model() == user_of(id, fields_of(node_model(*node))),
            Ok(None) => lookup(fields_of(node_model(*node)), "uid"@) is None,
            Err(_) => false,
        },
{
    let attrs = node.attrs();
    match attrs.get("uid") {
        Some(uid) => Ok(Some(user_from_fields(UserId::new(uid.as_str()), &attrs))),
        None => Ok(None),
    }
}

/// Result of a user search.
#[derive(Debug, Clone)]
pub struct UserSearchResult {
    /// User ID.
    pub id: UserId,
    /// Username.
    pub name: String,
    /// Avatar URL.
    pub avatar_url: Option<String>,
}

/// Whether `r` is the search result that the fields describe.
pub open spec fn is_search_result(r: UserSearchResult, f: Fields) -> bool {
    &&& Some(r.id.0@) == lookup(f, "uid"@)
    &&& r.name@ == crate::api::fields::text_of_field(f, "username"@)
    &&& opt_view(r.avatar_url) == lookup(f, "avatar"@)
}

/// Whether the node is listed in a user search: it has a `uid`.
pub open spec fn has_uid(m: NodeModel) -> bool {
    lookup(fields_of(m), "uid"@) is Some
}

/// Maps one node of a user search, if it has a `uid`.
pub fn parse_search_item(node: &XmlNode) -> (r: Option<UserSearchResult>)
    ensures
        match r {
            Some(item) => has_uid(node_model(*node)) && is_search_result(
                item,
                fields_of(node_model(*node)),
            ),
            None => !has_uid(node_model(*node)),
        },
{
    let attrs = node.attrs();
    match attrs.get("uid") {
        Some(uid) => Some(
            UserSearchResult {
                id: UserId::new(uid.as_str()),
                name: crate::api::fields::get_text(&attrs, "username"),
                avatar_url: get_opt(&attrs, "avatar"),
            },
        ),
        None => None,
    }
}

/// Whether `out` lists, in order, the search results of those among
/// `nodes` that have a `uid`.
pub open spec fn are_search_results(nodes: Seq<NodeModel>, out: Seq<UserSearchResult>) -> bool
    decreases nodes.len(),
{
    if nodes.len() == 0 {
        out.len() == 0
    } else if has_uid(nodes.last()) {
        &&& out.len() > 0
        &&& is_search_result(out.last(), fields_of(nodes.last()))
        &&& are_search_results(nodes.drop_last(), out.drop_last())
    } else {
        are_search_results(nodes.drop_last(), out)
    }
}

/// Maps the nodes of a user search, in order, passing over those without
/// `uid`.
pub fn search_results_from(nodes: &Vec<XmlNode>) -> (r: Vec<UserSearchResult>)
    ensures
        are_search_results(node_models(nodes@), r@),
{
    let ghost all = node_models(nodes@);
    let mut out: Vec<UserSearchResult> = Vec::new();
    let mut i: usize = 0;
    assert(all.subrange(0, 0) =~= Seq::<NodeModel>::empty());
    while i < nodes.len()
        invariant
            i <= nodes.len(),
            all == node_models(nodes@),
            are_search_results(all.subrange(0, i as int), out@),
        decreases nodes.len() - i,
    {
        let ghost before = out@;
        assert(all.subrange(0, i + 1).drop_last() =~= all.subrange(0, i as int));
        assert(all.subrange(0, i + 1).last() == node_model(nodes@[i as int]));
        match parse_search_item(&nodes[i]) {
            Some(item) => {
                out.push(item);
                assert(out@.drop_last() =~= before);
            },
            None => {},
        }
        i = i + 1;
    }
    assert(all.subrange(0, i as int) =~= all);
    out
}

/// Maps the response to a request for one user: the first item of the
/// data carries the user's fields.
pub fn parse_user_response(xml: &str, user_id: &UserId) -> (r: Result<User>)
    ensures
        match r {
            Ok(u) => is_document(xml@) && (query_nodes(xml@, "/root/data/item"@) matches Ok(nodes)
                && nodes.len() > 0 && u.model() == user_of(user_id.0@, fields_of(nodes[0]))),
            Err(Error::MissingField(f)) => is_document(xml@) && f@ == "user data"@ && (query_nodes(
                xml@,
                "/root/data/item"@,
            ) matches Ok(nodes) && nodes.len() == 0),
            Err(e) => is_document_error(xml@, e) || (is_document(xml@) && is_query_error(
                xml@,
                "/root/data/item"@,
                e,
            )),
        },
{
    let doc = match XmlDocument::parse(xml) {
        Ok(d) => d,
        Err(e) => {
            return Err(e);
        },
    };
    let node = match doc.select_one("/root/data/item") {
        Ok(Some(n)) => n,
        Ok(None) => {
            return Err(Error::missing("user data"));
        },
        Err(e) => {
            return Err(e);
        },
    };
    let attrs = node.attrs();
    Ok(user_from_fields(UserId::new(user_id.as_str()), &attrs))
}

/// Maps the response to a user search.
pub fn parse_user_search(xml: &str) -> (r: Result<Vec<UserSearchResult>>)
    ensures
        match r {
            Ok(found) => is_document(xml@) && (query_nodes(xml@, "/root/data/item"@) matches Ok(
                nodes,
            ) && are_search_results(nodes, found@)),
            Err(e) => is_document_error(xml@, e) || (is_document(xml@) && is_query_error(
                xml@,
                "/root/data/item"@,
                e,
            )),
        },
{
    let doc = match XmlDocument::parse(xml) {
        Ok(d) => d,
        Err(e) => {
            return Err(e);
        },
    };
    match doc.select("/root/data/item") {
        Ok(nodes) => Ok(search_results_from(&nodes)),
        Err(e) => Err(e),
    }
}

} // verus!
