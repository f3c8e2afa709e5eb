//! User models.

use crate::models::ids::UserId;
use crate::number::{parse_i64, parsed_i64};
use crate::text::{
    chars_of, find_char, find_char_from, has_prefix_at, lemma_find_char, slice, string_of,
    trim, trim_bounds, trimmed,
};
use crate::parser::bbcode::starts_with_str;
use vstd::prelude::*;
use vstd::string::StrSliceExecFns;

verus! {

/// User display name handling.
#[derive(Debug, Clone)]
pub enum UserName {
    /// Regular username.
    Regular(String),
    /// Anonymous posting.
    Anonymous,
    /// Username with nickname in parentheses.
    WithNickname { name: String, nickname: String },
}

/// Mathematical model of a [`UserName`].
pub enum NameModel {
    Regular(Seq<char>),
    Anonymous,
    WithNickname { name: Seq<char>, nickname: Seq<char> },
}

/// What a raw user name stands for. Trimmed, an empty name and one that
/// starts with `#anon_` are anonymous; a name of the shape `A(B)` is the
/// real name `A` shown as the nickname `B`; any other is a regular name.
pub open spec fn name_of_raw(raw: Seq<char>) -> NameModel {
    let t = trimmed(raw);
    if has_prefix_at(t, 0, "#anon_"@) || t.len() == 0 {
        NameModel::Anonymous
    } else {
        match find_char(t, '(', 0) {
            Some(p) => if t.last() == ')' {
                NameModel::WithNickname {
                    name: trimmed(t.subrange(0, p)),
                    nickname: trimmed(t.subrange(p + 1, t.len() - 1)),
                }
            } else {
                NameModel::Regular(t)
            },
            None => NameModel::Regular(t),
        }
    }
}

/// The name as it is shown: the nickname where there is one, `Anonymous`
/// for an anonymous user.
pub open spec fn display_name(name: NameModel) -> Seq<char> {
    match name {
        NameModel::Regular(n) => n,
        NameModel::Anonymous => "Anonymous"@,
        NameModel::WithNickname { nickname, .. } => nickname,
    }
}

impl Default for UserName {
    fn default() -> (r: Self)
        ensures
            r is Anonymous,
    {
        UserName::Anonymous
    }
}

impl UserName {
    /// The model of the name.
    pub open spec fn model(&self) -> NameModel {
        match self {
            UserName::Regular(n) => NameModel::Regular(n@),
            UserName::Anonymous => NameModel::Anonymous,
            UserName::WithNickname { name, nickname } => NameModel::WithNickname {
                name: name@,
                nickname: nickname@,
            },
        }
    }

    /// Copies the name.
    pub fn duplicate(&self) -> (r: Self)
        ensures
            r.model() == self.model(),
    {
        match self {
            UserName::Regular(n) => UserName::Regular(n.clone()),
            UserName::Anonymous => UserName::Anonymous,
            UserName::WithNickname { name, nickname } => UserName::WithNickname {
                name: name.clone(),
                nickname: nickname.clone(),
            },
        }
    }

    /// Create a regular username.
    pub fn regular(name: &str) -> (r: Self)
        ensures
            r.model() == NameModel::Regular(name@),
    {
        UserName::Regular(name.to_owned())
    }

    /// Create a username with nickname.
    pub fn with_nickname(name: &str, nickname: &str) -> (r: Self)
        ensures
            r.model() == (NameModel::WithNickname { name: name@, nickname: nickname@ }),
    {
        UserName::WithNickname { name: name.to_owned(), nickname: nickname.to_owned() }
    }

    /// Parse username from the server's format.
    pub fn parse(raw: &str) -> (r: Self)
        ensures
            r.model() == name_of_raw(raw@),
    {
        let t = trim(&chars_of(raw));
        if starts_with_str(&t, 0, "#anon_") || t.len() == 0 {
            return UserName::Anonymous;
        }
        match find_char_from(&t, '(', 0) {
            Some(p) => {
                proof {
                    lemma_find_char(t@, '(', 0);
                }
                if t[t.len() - 1] == ')' {
                    let (a, b) = trim_bounds(&t, 0, p);
                    let (c, d) = trim_bounds(&t, p + 1, t.len() - 1);
                    UserName::WithNickname {
                        name: string_of(&slice(&t, a, b)),
                        nickname: string_of(&slice(&t, c, d)),
                    }
                } else {
                    UserName::Regular(string_of(&t))
                }
            },
            None => UserName::Regular(string_of(&t)),
        }
    }

    /// Get the display string.
    pub fn display(&self) -> (r: &str)
        ensures
            r@ == display_name(self.model()),
    {
        match self {
            UserName::Regular(name) => name.as_str(),
            UserName::Anonymous => "Anonymous",
            UserName::WithNickname { nickname, .. } => nickname.as_str(),
        }
    }

    /// Get the primary/real username.
    pub fn primary(&self) -> (r: Option<&str>)
        ensures
            match self.model() {
                NameModel::Regular(n) => r is Some && r->0@ == n,
                NameModel::Anonymous => r is None,
                NameModel::WithNickname { name, .. } => r is Some && r->0@ == name,
            },
    {
        match self {
            UserName::Regular(name) => Some(name.as_str()),
            UserName::Anonymous => None,
            UserName::WithNickname { name, .. } => Some(name.as_str()),
        }
    }
}

/// A user.
#[derive(Debug, Clone)]
pub struct User {
    /// User ID.
    pub id: UserId,
    /// Display name.
    pub name: UserName,
    /// Avatar URL.
    pub avatar_url: Option<String>,
    /// User reputation/fame.
    pub reputation: i32,
    /// User posts count.
    pub posts: i32,
    /// Registration date.
    pub reg_date: i64,
    /// User signature.
    pub signature: Option<String>,
    /// Whether user is admin.
    pub is_admin: bool,
    /// Whether user is moderator.
    pub is_mod: bool,
    /// Whether user is muted.
    pub is_muted: bool,
    /// User honor/medal.
    pub honor: Option<String>,
}

/// Mathematical model of a [`User`].
pub struct UserModel {
    pub id: Seq<char>,
    pub name: NameModel,
    pub avatar_url: Option<Seq<char>>,
    pub reputation: i32,
    pub posts: i32,
    pub reg_date: i64,
    pub signature: Option<Seq<char>>,
    pub is_admin: bool,
    pub is_mod: bool,
    pub is_muted: bool,
    pub honor: Option<Seq<char>>,
}

/// The user that carries only an identifier and a name, every other field
/// at its default.
pub open spec fn bare_user(id: Seq<char>, name: NameModel) -> UserModel {
    UserModel {
        id,
        name,
        avatar_url: None,
        reputation: 0,
        posts: 0,
        reg_date: 0,
        signature: None,
        is_admin: false,
        is_mod: false,
        is_muted: false,
        honor: None,
    }
}

/// The view of an optional string.
pub open spec fn view_opt(s: Option<String>) -> Option<Seq<char>> {
    match s {
        Some(t) => Some(t@),
        None => None,
    }
}

/// Copies an optional string.
pub fn copy_opt(s: &Option<String>) -> (r: Option<String>)
    ensures
        view_opt(r) == view_opt(*s),
{
    match s {
        Some(t) => Some(t.clone()),
        None => None,
    }
}

impl User {
    /// The model of the user.
    pub open spec fn model(&self) -> UserModel {
        UserModel {
            id: self.id.0@,
            name: self.name.model(),
            avatar_url: view_opt(self.avatar_url),
            reputation: self.reputation,
            posts: self.posts,
            reg_date: self.reg_date,
            signature: view_opt(self.signature),
            is_admin: self.is_admin,
            is_mod: self.is_mod,
            is_muted: self.is_muted,
            honor: view_opt(self.honor),
        }
    }

    /// Whether the user is the one that carries only the identifier `id`
    /// and the name `name`, every other field at its default.
    pub open spec fn is_bare(&self, id: Seq<char>, name: NameModel) -> bool {
        self.model() == bare_user(id, name)
    }

    /// Copies the user.
    pub fn duplicate(&self) -> (r: Self)
        ensures
            r.model() == self.model(),
    {
        User {
            id: UserId::new(self.id.as_str()),
            name: self.name.duplicate(),
            avatar_url: copy_opt(&self.avatar_url),
            reputation: self.reputation,
            posts: self.posts,
            reg_date: self.reg_date,
            signature: copy_opt(&self.signature),
            is_admin: self.is_admin,
            is_mod: self.is_mod,
            is_muted: self.is_muted,
            honor: copy_opt(&self.honor),
        }
    }

    /// A user with the given identifier and name and nothing else.
    pub fn bare(id: UserId, name: UserName) -> (r: Self)
        ensures
            r.is_bare(id.0@, name.model()),
    {
        User {
            id,
            name,
            avatar_url: None,
            reputation: 0,
            posts: 0,
            reg_date: 0,
            signature: None,
            is_admin: false,
            is_mod: false,
            is_muted: false,
            honor: None,
        }
    }

    /// Create an anonymous user with the given ID.
    pub fn anonymous(id: &str) -> (r: Self)
        ensures
            r.is_bare(id@, NameModel::Anonymous),
    {
        User::bare(UserId::new(id), UserName::Anonymous)
    }

    /// Check if this is an anonymous user.
    pub fn is_anonymous(&self) -> (r: bool)
        ensures
            r == (self.name is Anonymous),
    {
        match &self.name {
            UserName::Anonymous => true,
            _ => false,
        }
    }

    /// Check if this user ID is negative.
    pub fn is_negative_id(&self) -> (r: bool)
        ensures
            r == (self.id.0@.len() > 0 && self.id.0@[0] == '-'),
    {
        let s = self.id.as_str();
        s.unicode_len() > 0 && s.get_char(0) == '-'
    }

    /// Get the anonymous identifier if this is an anonymous post.
    pub fn anon_id(&self) -> (r: Option<&str>)
        ensures
            match r {
                Some(s) => s@ == self.id.0@ && s@.len() > 0 && s@[0] == '-',
                None => !(self.id.0@.len() > 0 && self.id.0@[0] == '-'),
            },
    {
        if self.is_negative_id() {
            Some(self.id.as_str())
        } else {
            None
        }
    }
}

impl Default for User {
    fn default() -> (r: Self)
        ensures
            r.is_bare("0"@, NameModel::Anonymous),
    {
        User::bare(UserId::default(), UserName::Anonymous)
    }
}

/// What an anonymous identifier holds: the masked, negative user number
/// before the first comma and the context after it. `None` unless the text
/// starts with `-`, has a comma, and the part before it is an `i64`.
pub open spec fn anon_id_of(raw: Seq<char>) -> Option<(i64, Seq<char>)> {
    if raw.len() == 0 || raw[0] != '-' {
        None
    } else {
        match find_char(raw, ',', 0) {
            Some(k) => match parsed_i64(raw.subrange(0, k)) {
                Some(n) => Some((n, raw.subrange(k + 1, raw.len() as int))),
                None => None,
            },
            None => None,
        }
    }
}

/// Parse the anonymous ID format: `-USERID,CONTEXT`. Returns the negative
/// user number and the context.
pub fn parse_anon_id(raw: &str) -> (r: Option<(i64, &str)>)
    ensures
        match r {
            Some((n, context)) => anon_id_of(raw@) == Some((n, context@)),
            None => anon_id_of(raw@) is None,
        },
{
    let v = chars_of(raw);
    if v.len() == 0 || v[0] != '-' {
        return None;
    }
    match find_char_from(&v, ',', 0) {
        Some(k) => {
            proof {
                lemma_find_char(v@, ',', 0);
            }
            match parse_i64(&slice(&v, 0, k)) {
                Some(n) => Some((n, raw.substring_char(k + 1, v.len()))),
                None => None,
            }
        },
        None => None,
    }
}

} // verus!
