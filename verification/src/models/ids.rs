//! Type-safe identifier wrappers.
//!
//! The four kinds of identifier are one wrapper type, told apart by a
//! constant parameter, so that they share every operation and cannot be
//! mixed up.

use crate::number::{decimal_text, format_i64};
use crate::text::str_eq;
use vstd::prelude::*;

verus! {

/// An identifier of the kind `KIND`: the raw text that the server uses.
#[derive(Debug, Clone, PartialEq, Eq, Hash)]
pub struct Id<const KIND: u8>(pub String);

/// A forum identifier.
pub type ForumId = Id<0>;

/// A topic/thread identifier.
pub type TopicId = Id<1>;

/// A post/reply identifier.
pub type PostId = Id<2>;

/// A user identifier.
pub type UserId = Id<3>;

/// Whether raw identifier text stands for "no identifier": blank or `0`.
pub open spec fn is_blank_id(raw: Seq<char>) -> bool {
    raw.len() == 0 || raw == "0"@
}

impl<const KIND: u8> Id<KIND> {
    /// The raw text of the identifier.
    pub open spec fn raw(&self) -> Seq<char> {
        self.0@
    }

    /// Create a new ID from a string.
    pub fn new(id: &str) -> (r: Self)
        ensures
            r.0@ == id@,
    {
        Id(id.to_owned())
    }

    /// Check if this ID is empty or "0".
    pub fn is_empty(&self) -> (r: bool)
        ensures
            r == is_blank_id(self.0@),
    {
        self.0.as_str().is_empty() || str_eq(self.0.as_str(), "0")
    }

    /// Get the inner string.
    pub fn as_str(&self) -> (r: &str)
        ensures
            r@ == self.0@,
    {
        self.0.as_str()
    }

    /// The identifier's text.
    pub fn to_string(&self) -> (r: String)
        ensures
            r@ == self.0@,
    {
        self.0.clone()
    }
}

impl<const KIND: u8> From<String> for Id<KIND> {
    fn from(s: String) -> (r: Self) {
        Id(s)
    }
}

impl<const KIND: u8> vstd::std_specs::convert::FromSpecImpl<String> for Id<KIND> {
    open spec fn obeys_from_spec() -> bool {
        true
    }

    open spec fn from_spec(s: String) -> Self {
        Id(s)
    }
}

impl<'a, const KIND: u8> From<&'a str> for Id<KIND> {
    fn from(s: &'a str) -> (r: Self)
        ensures
            r.0@ == s@,
    {
        Id(s.to_owned())
    }
}

impl<'a, const KIND: u8> vstd::std_specs::convert::FromSpecImpl<&'a str> for Id<KIND> {
    open spec fn obeys_from_spec() -> bool {
        false
    }

    open spec fn from_spec(s: &'a str) -> Self {
        arbitrary()
    }
}

impl<'a, const KIND: u8> From<&'a String> for Id<KIND> {
    fn from(s: &'a String) -> (r: Self) {
        Id(s.clone())
    }
}

impl<'a, const KIND: u8> vstd::std_specs::convert::FromSpecImpl<&'a String> for Id<KIND> {
    open spec fn obeys_from_spec() -> bool {
        true
    }

    open spec fn from_spec(s: &'a String) -> Self {
        Id(*s)
    }
}

impl<const KIND: u8> From<i64> for Id<KIND> {
    fn from(n: i64) -> (r: Self)
        ensures
            r.0@ == decimal_text(n as int),
    {
        Id(format_i64(n))
    }
}

impl<const KIND: u8> vstd::std_specs::convert::FromSpecImpl<i64> for Id<KIND> {
    open spec fn obeys_from_spec() -> bool {
        false
    }

    open spec fn from_spec(n: i64) -> Self {
        arbitrary()
    }
}

impl<const KIND: u8> From<i32> for Id<KIND> {
    fn from(n: i32) -> (r: Self)
        ensures
            r.0@ == decimal_text(n as int),
    {
        Id(format_i64(n as i64))
    }
}

impl<const KIND: u8> vstd::std_specs::convert::FromSpecImpl<i32> for Id<KIND> {
    open spec fn obeys_from_spec() -> bool {
        false
    }

    open spec fn from_spec(n: i32) -> Self {
        arbitrary()
    }
}

impl<const KIND: u8> Default for Id<KIND> {
    fn default() -> (r: Self)
        ensures
            r.0@ == "0"@,
    {
        Id("0".to_owned())
    }
}

} // verus!
