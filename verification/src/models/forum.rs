//! Forum and category models.

use crate::error::prefixed;
use crate::models::ids::ForumId;
use vstd::prelude::*;
use vstd::string::StringExecFns;

verus! {

/// Where the icons of forums are served from.
pub const FORUM_ICON_PATH: &'static str = "http://img4.ngacn.cc/ngabbs/nga_classic/f/app/";

/// The address of the icon of the forum with the raw identifier `id`.
pub open spec fn icon_url_of(id: Seq<char>) -> Seq<char> {
    "http://img4.ngacn.cc/ngabbs/nga_classic/f/app/"@ + id + ".png"@
}

/// Builds the address of a forum's icon.
pub fn icon_url(id: &str) -> (r: String)
    ensures
        r@ == icon_url_of(id@),
{
    let mut s = prefixed("http://img4.ngacn.cc/ngabbs/nga_classic/f/app/", id);
    s.append(".png");
    s
}

/// Forum identifier that can be either a fid or stid.
#[derive(Debug, Clone, PartialEq, Eq, Hash)]
pub enum ForumIdKind {
    /// Regular forum ID.
    Fid(String),
    /// Subforum/topic collection ID.
    Stid(String),
}

impl ForumIdKind {
    /// The raw identifier, whatever the addressing scheme.
    pub open spec fn raw(&self) -> Seq<char> {
        match self {
            ForumIdKind::Fid(s) => s@,
            ForumIdKind::Stid(s) => s@,
        }
    }

    /// Create from fid.
    pub fn fid(id: &str) -> (r: Self)
        ensures
            r is Fid,
            r.raw() == id@,
    {
        ForumIdKind::Fid(id.to_owned())
    }

    /// Create from stid.
    pub fn stid(id: &str) -> (r: Self)
        ensures
            r is Stid,
            r.raw() == id@,
    {
        ForumIdKind::Stid(id.to_owned())
    }

    /// Get the underlying ID string.
    pub fn id(&self) -> (r: &str)
        ensures
            r@ == self.raw(),
    {
        match self {
            ForumIdKind::Fid(s) => s.as_str(),
            ForumIdKind::Stid(s) => s.as_str(),
        }
    }

    /// Check if this is a fid.
    pub fn is_fid(&self) -> (r: bool)
        ensures
            r == (self is Fid),
    {
        match self {
            ForumIdKind::Fid(_) => true,
            ForumIdKind::Stid(_) => false,
        }
    }

    /// Check if this is a stid.
    pub fn is_stid(&self) -> (r: bool)
        ensures
            r == (self is Stid),
    {
        match self {
            ForumIdKind::Fid(_) => false,
            ForumIdKind::Stid(_) => true,
        }
    }

    /// Get the query parameter name for this ID type.
    pub fn param_name(&self) -> (r: &'static str)
        ensures
            r@ == (if self is Fid {
                "fid"@
            } else {
                "stid"@
            }),
    {
        match self {
            ForumIdKind::Fid(_) => "fid",
            ForumIdKind::Stid(_) => "stid",
        }
    }
}

impl From<ForumId> for ForumIdKind {
    fn from(id: ForumId) -> (r: Self) {
        ForumIdKind::Fid(id.0)
    }
}

impl vstd::std_specs::convert::FromSpecImpl<ForumId> for ForumIdKind {
    open spec fn obeys_from_spec() -> bool {
        true
    }

    open spec fn from_spec(id: ForumId) -> Self {
        ForumIdKind::Fid(id.0)
    }
}

/// A forum.
#[derive(Debug, Clone)]
pub struct Forum {
    /// Forum identifier.
    pub id: Option<ForumIdKind>,
    /// Forum name.
    pub name: String,
    /// Forum description/info.
    pub info: String,
    /// Forum icon URL.
    pub icon_url: String,
    /// Pinned topic ID if any.
    pub topped_topic_id: String,
}

impl Default for Forum {
    fn default() -> (r: Self)
        ensures
            r.id is None,
            r.name@.len() == 0,
            r.info@.len() == 0,
            r.icon_url@.len() == 0,
            r.topped_topic_id@.len() == 0,
    {
        Forum {
            id: None,
            name: String::new(),
            info: String::new(),
            icon_url: String::new(),
            topped_topic_id: String::new(),
        }
    }
}

impl Forum {
    /// Create a minimal forum with just ID and name.
    pub fn minimal(id: ForumIdKind, name: &str) -> (r: Self)
        ensures
            r.id == Some(id),
            r.name@ == name@,
            r.info@.len() == 0,
            r.icon_url@ == icon_url_of(id.raw()),
            r.topped_topic_id@.len() == 0,
    {
        let icon = icon_url(id.id());
        Forum {
            id: Some(id),
            name: name.to_owned(),
            info: String::new(),
            icon_url: icon,
            topped_topic_id: String::new(),
        }
    }

    /// Get the forum ID string regardless of type.
    pub fn id_str(&self) -> (r: Option<&str>)
        ensures
            match r {
                Some(s) => self.id is Some && s@ == self.id->0.raw(),
                None => self.id is None,
            },
    {
        match &self.id {
            Some(id) => Some(id.id()),
            None => None,
        }
    }
}

/// A category of forums.
#[derive(Debug, Clone)]
pub struct Category {
    /// Category ID.
    pub id: String,
    /// Category name.
    pub name: String,
    /// Forums in this category.
    pub forums: Vec<Forum>,
}

impl Default for Category {
    fn default() -> (r: Self)
        ensures
            r.id@.len() == 0,
            r.name@.len() == 0,
            r.forums@.len() == 0,
    {
        Category { id: String::new(), name: String::new(), forums: Vec::new() }
    }
}

/// Subforum filter operation.
#[derive(Debug, Clone, Copy, PartialEq, Eq)]
pub enum SubforumFilterOp {
    /// Show.
    Show,
    /// Block.
    Block,
}

impl SubforumFilterOp {
    /// Get the API parameter value.
    pub fn param(&self) -> (r: &'static str)
        ensures
            r@ == (match self {
                SubforumFilterOp::Show => "del"@,
                SubforumFilterOp::Block => "add"@,
            }),
    {
        match self {
            SubforumFilterOp::Show => "del",
            SubforumFilterOp::Block => "add",
        }
    }
}

/// Favorite forum modification operation.
#[derive(Debug, Clone, Copy, PartialEq, Eq)]
pub enum FavoriteForumOp {
    /// Add to favorites.
    Add,
    /// Remove from favorites.
    Remove,
}

impl FavoriteForumOp {
    /// Get the API parameter value.
    pub fn param(&self) -> (r: &'static str)
        ensures
            r@ == (match self {
                FavoriteForumOp::Add => "add"@,
                FavoriteForumOp::Remove => "del"@,
            }),
    {
        match self {
            FavoriteForumOp::Add => "add",
            FavoriteForumOp::Remove => "del",
        }
    }
}

} // verus!
