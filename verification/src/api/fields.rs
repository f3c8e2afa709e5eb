//! Reading typed values out of the fields of a response node.

use crate::number::{
    parse_i32, parse_i64, parse_u64, parsed_i32, parsed_i64, parsed_u64,
};
use crate::parser::xml::{lookup, AttrMap};
use crate::text::{
    chars_of, find_char, find_char_from, lemma_find_char, lemma_rfind_char, rfind_char,
    rfind_char_in, slice, str_eq,
};
use vstd::prelude::*;

verus! {

pub type Fields = Seq<(Seq<char>, Seq<char>)>;

/// The text of the field `key`, empty when there is none.
pub open spec fn text_of_field(f: Fields, key: Seq<char>) -> Seq<char> {
    match lookup(f, key) {
        Some(v) => v,
        None => Seq::empty(),
    }
}

/// The value of the field `key`, unless it is absent, empty or `0`.
pub open spec fn nonzero_field(f: Fields, key: Seq<char>) -> Option<Seq<char>> {
    match lookup(f, key) {
        Some(v) => if v.len() == 0 || v == "0"@ {
            None
        } else {
            Some(v)
        },
        None => None,
    }
}

/// The value of the field `key`, unless it is absent or empty.
pub open spec fn nonempty_field(f: Fields, key: Seq<char>) -> Option<Seq<char>> {
    match lookup(f, key) {
        Some(v) => if v.len() == 0 {
            None
        } else {
            Some(v)
        },
        None => None,
    }
}

/// The field `first`, or `second` where there is no `first`.
pub open spec fn either_field(f: Fields, first: Seq<char>, second: Seq<char>) -> Option<
    Seq<char>,
> {
    match lookup(f, first) {
        Some(v) => Some(v),
        None => lookup(f, second),
    }
}

/// The field `key` as an `i64`, if it is there and is one.
pub open spec fn i64_field(f: Fields, key: Seq<char>) -> Option<i64> {
    match lookup(f, key) {
        Some(v) => parsed_i64(v),
        None => None,
    }
}

/// The field `key` as an `i32`, if it is there and is one.
pub open spec fn i32_field(f: Fields, key: Seq<char>) -> Option<i32> {
    match lookup(f, key) {
        Some(v) => parsed_i32(v),
        None => None,
    }
}

/// The field `key` as a `u64`, if it is there and is one.
pub open spec fn u64_field(f: Fields, key: Seq<char>) -> Option<u64> {
    match lookup(f, key) {
        Some(v) => parsed_u64(v),
        None => None,
    }
}

/// The field `key` as an `i64`, or `default`.
pub open spec fn i64_or(f: Fields, key: Seq<char>, default: i64) -> i64 {
    match i64_field(f, key) {
        Some(x) => x,
        None => default,
    }
}

/// The field `key` as an `i32`, or `default`.
pub open spec fn i32_or(f: Fields, key: Seq<char>, default: i32) -> i32 {
    match i32_field(f, key) {
        Some(x) => x,
        None => default,
    }
}

/// The field `key` as a `u64`, or `default`.
pub open spec fn u64_or(f: Fields, key: Seq<char>, default: u64) -> u64 {
    match u64_field(f, key) {
        Some(x) => x,
        None => default,
    }
}

/// The view of an optional string.
pub open spec fn opt_view(s: Option<String>) -> Option<Seq<char>> {
    match s {
        Some(t) => Some(t@),
        None => None,
    }
}

/// The part of `s` after its last `c`; all of `s` where it holds none.
pub open spec fn after_last(s: Seq<char>, c: char) -> Seq<char> {
    match rfind_char(s, c, s.len() as int) {
        Some(k) => s.subrange(k + 1, s.len() as int),
        None => s,
    }
}

/// The part of `s` before its first `c`; all of `s` where it holds none.
pub open spec fn before_first(s: Seq<char>, c: char) -> Seq<char> {
    match find_char(s, c, 0) {
        Some(k) => s.subrange(0, k),
        None => s,
    }
}

/// Copies an optional string.
pub fn clone_opt(s: Option<&String>) -> (r: Option<String>)
    ensures
        match s {
            Some(t) => r is Some && r->0@ == t@,
            None => r is None,
        },
{
    match s {
        Some(t) => Some(t.clone()),
        None => None,
    }
}

/// The text of a field, empty when there is none.
pub fn get_text(attrs: &AttrMap, key: &str) -> (r: String)
    ensures
        r@ == text_of_field(attrs.fields(), key@),
{
    match attrs.get(key) {
        Some(v) => v.clone(),
        None => String::new(),
    }
}

/// The text of a field, if there is one.
pub fn get_opt(attrs: &AttrMap, key: &str) -> (r: Option<String>)
    ensures
        opt_view(r) == lookup(attrs.fields(), key@),
{
    clone_opt(attrs.get(key))
}

/// The text of a field, unless it is absent, empty or `0`.
pub fn get_nonzero(attrs: &AttrMap, key: &str) -> (r: Option<String>)
    ensures
        opt_view(r) == nonzero_field(attrs.fields(), key@),
{
    match attrs.get(key) {
        Some(v) => if v.as_str().is_empty() || str_eq(v.as_str(), "0") {
            None
        } else {
            Some(v.clone())
        },
        None => None,
    }
}

/// The text of a field, unless it is absent or empty.
pub fn get_nonempty(attrs: &AttrMap, key: &str) -> (r: Option<String>)
    ensures
        opt_view(r) == nonempty_field(attrs.fields(), key@),
{
    match attrs.get(key) {
        Some(v) => if v.as_str().is_empty() {
            None
        } else {
            Some(v.clone())
        },
        None => None,
    }
}

/// The field `first`, or `second` where there is no `first`.
pub fn get_either(attrs: &AttrMap, first: &str, second: &str) -> (r: Option<String>)
    ensures
        opt_view(r) == either_field(attrs.fields(), first@, second@),
{
    match attrs.get(first) {
        Some(v) => Some(v.clone()),
        None => clone_opt(attrs.get(second)),
    }
}

/// A field as an `i64`.
pub fn get_i64(attrs: &AttrMap, key: &str) -> (r: Option<i64>)
    ensures
        r == i64_field(attrs.fields(), key@),
{
    match attrs.get(key) {
        Some(v) => parse_i64(&chars_of(v.as_str())),
        None => None,
    }
}

/// A field as an `i32`.
pub fn get_i32(attrs: &AttrMap, key: &str) -> (r: Option<i32>)
    ensures
        r == i32_field(attrs.fields(), key@),
{
    match attrs.get(key) {
        Some(v) => parse_i32(&chars_of(v.as_str())),
        None => None,
    }
}

/// A field as a `u64`.
pub fn get_u64(attrs: &AttrMap, key: &str) -> (r: Option<u64>)
    ensures
        r == u64_field(attrs.fields(), key@),
{
    match attrs.get(key) {
        Some(v) => parse_u64(&chars_of(v.as_str())),
        None => None,
    }
}

/// A field as an `i64`, or `default`.
pub fn get_i64_or(attrs: &AttrMap, key: &str, default: i64) -> (r: i64)
    ensures
        r == i64_or(attrs.fields(), key@, default),
{
    match get_i64(attrs, key) {
        Some(x) => x,
        None => default,
    }
}

/// A field as an `i32`, or `default`.
pub fn get_i32_or(attrs: &AttrMap, key: &str, default: i32) -> (r: i32)
    ensures
        r == i32_or(attrs.fields(), key@, default),
{
    match get_i32(attrs, key) {
        Some(x) => x,
        None => default,
    }
}

/// A field as a `u64`, or `default`.
pub fn get_u64_or(attrs: &AttrMap, key: &str, default: u64) -> (r: u64)
    ensures
        r == u64_or(attrs.fields(), key@, default),
{
    match get_u64(attrs, key) {
        Some(x) => x,
        None => default,
    }
}

/// The part of `v` after its last `c`.
pub fn tail_after(v: &Vec<char>, c: char) -> (r: Vec<char>)
    ensures
        r@ == after_last(v@, c),
{
    let n = v.len();
    match rfind_char_in(v, c) {
        Some(k) => {
            proof {
                lemma_rfind_char(v@, c, v@.len() as int);
            }
            slice(v, k + 1, n)
        },
        None => {
            assert(v@.subrange(0, v@.len() as int) =~= v@);
            slice(v, 0, v.len())
        },
    }
}

/// The part of `v` before its first `c`.
pub fn head_before(v: &Vec<char>, c: char) -> (r: Vec<char>)
    ensures
        r@ == before_first(v@, c),
{
    match find_char_from(v, c, 0) {
        Some(k) => {
            proof {
                lemma_find_char(v@, c, 0);
            }
            slice(v, 0, k)
        },
        None => {
            assert(v@.subrange(0, v@.len() as int) =~= v@);
            slice(v, 0, v.len())
        },
    }
}

/// The number of pages that `total_rows` rows fill at `per_page` rows a
/// page: the quotient rounded up, and never less than one.
pub open spec fn pages_for(total_rows: int, per_page: int) -> int {
    if total_rows <= 0 {
        1
    } else {
        (total_rows + per_page - 1) / per_page
    }
}

/// Pagination arithmetic: the number of pages, at least one.
pub fn total_pages(total_rows: u32, per_page: u32) -> (r: u32)
    requires
        per_page > 0,
    ensures
        r == pages_for(total_rows as int, per_page as int),
        r >= 1,
{
    if total_rows == 0 {
        return 1;
    }
    let pages: u64 = (total_rows as u64 + per_page as u64 - 1) / (per_page as u64);
    assert(1 <= pages <= total_rows) by (nonlinear_arith)
        requires
            pages == (total_rows as int + per_page as int - 1) / (per_page as int),
            total_rows >= 1,
            per_page >= 1,
    ;
    pages as u32
}

/// The low 32 bits of `x` as an unsigned number: `x` modulo two to the 32.
pub open spec fn low_u32(x: i64) -> u32 {
    (x as int % 0x1_0000_0000) as u32
}

/// Keeps the low 32 bits of `x`, as a cast to `u32` does.
pub fn to_low_u32(x: i64) -> (r: u32)
    ensures
        r == low_u32(x),
{
    if x >= 0 {
        ((x as u64) % 0x1_0000_0000) as u32
    } else {
        let neg: u64 = (-(x + 1)) as u64;
        let m: u64 = neg % 0x1_0000_0000;
        assert((x as int) % 0x1_0000_0000 == 0xffff_ffff - m) by (nonlinear_arith)
            requires
                x < 0,
                neg == -(x + 1),
                m == neg % 0x1_0000_0000,
        ;
        (0xffff_ffff - m) as u32
    }
}

/// The low 32 bits of `x` as a signed number.
pub open spec fn low_i32(x: i64) -> i32 {
    if low_u32(x) < 0x8000_0000 {
        low_u32(x) as i32
    } else {
        (low_u32(x) - 0x1_0000_0000) as i32
    }
}

/// Keeps the low 32 bits of `x`, as a cast to `i32` does.
pub fn to_low_i32(x: i64) -> (r: i32)
    ensures
        r == low_i32(x),
{
    let u = to_low_u32(x);
    if u < 0x8000_0000 {
        u as i32
    } else {
        (u as i64 - 0x1_0000_0000) as i32
    }
}

} // verus!
