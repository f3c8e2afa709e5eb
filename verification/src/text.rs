//! Character-sequence helpers shared by the parsers and mappers.

use vstd::prelude::*;
use vstd::std_specs::iter::IteratorSpec;

verus! {

/// Appends one character to a string (`String::push`): the view grows by
/// exactly that character.
#[verifier::external_body]
pub(crate) fn push_char(s: &mut String, c: char)
    ensures
        final(s)@ == old(s)@.push(c),
{
    s.push(c)
}

/// The lowercase form of a string, as `str::to_lowercase` gives it.
pub uninterp spec fn lowercase_of(s: Seq<char>) -> Seq<char>;

/// Whether every character of `s` is an ASCII character.
pub open spec fn is_ascii_text(s: Seq<char>) -> bool {
    forall|i: int| 0 <= i < s.len() ==> (#[trigger] s[i]) as u32 <= 127
}

/// The ASCII letter `A` to `Z` as `a` to `z`; any other character as it
/// is.
pub open spec fn ascii_lower_char(c: char) -> char {
    if 'A' <= c <= 'Z' {
        ((c as u32 + 32) as u8) as char
    } else {
        c
    }
}

/// The text with each ASCII capital letter as its small letter.
pub open spec fn ascii_lower(s: Seq<char>) -> Seq<char> {
    Seq::new(s.len(), |i: int| ascii_lower_char(s[i]))
}

/// The lowercase form of a text: for ASCII text each capital letter as its
/// small letter and all else kept, for other text what the rules of
/// Unicode give.
pub open spec fn lowered(s: Seq<char>) -> Seq<char> {
    if is_ascii_text(s) {
        ascii_lower(s)
    } else {
        lowercase_of(s)
    }
}

/// Lowercases a string (`str::to_lowercase`): the result is the lowercase
/// form of the argument, which for ASCII text has each of `A` to `Z` as
/// `a` to `z` and keeps every other character.
#[verifier::external_body]
pub(crate) fn std_lowercase(s: &str) -> (r: String)
    ensures
        r@ == lowercase_of(s@),
        is_ascii_text(s@) ==> r@ == ascii_lower(s@),
{
    s.to_lowercase()
}

/// The lowercase form of a string.
pub fn lowercase(s: &str) -> (r: String)
    ensures
        r@ == lowered(s@),
{
    std_lowercase(s)
}

/// The text with its HTML character references decoded, as
/// `html_escape::decode_html_entities` gives it.
pub uninterp spec fn html_decoded(s: Seq<char>) -> Seq<char>;

/// The text with its character references decoded. Text without `&` holds
/// no reference and is its own decoding.
pub open spec fn decoded(s: Seq<char>) -> Seq<char> {
    if s.contains('&') {
        html_decoded(s)
    } else {
        s
    }
}

/// Decodes named and numeric character references
/// (`html_escape::decode_html_entities`). A text without `&` holds no
/// reference and comes back unchanged.
#[verifier::external_body]
pub(crate) fn decode_entities(s: &str) -> (r: String)
    ensures
        r@ == html_decoded(s@),
        !s@.contains('&') ==> r@ == s@,
{
    html_escape::decode_html_entities(s).into_owned()
}

/// Decodes the character references of a text.
pub fn decode_html(s: &str) -> (r: String)
    ensures
        r@ == decoded(s@),
{
    decode_entities(s)
}

/// The characters of a string, in order.
pub fn chars_of(s: &str) -> (v: Vec<char>)
    ensures
        v@ == s@,
{
    let mut v: Vec<char> = Vec::new();
    let mut it = s.chars();
    loop
        invariant
            it.obeys_prophetic_iter_laws(),
            it.decrease() is Some,
            v@ + it.remaining() == s@,
        decreases it.decrease()->0,
    {
        match it.next() {
            Some(c) => {
                v.push(c);
            },
            None => {
                assert(v@ =~= s@);
                return v;
            },
        }
    }
}

/// Compares two string slices: they are equal exactly when they hold the
/// same characters.
pub fn str_eq(a: &str, b: &str) -> (r: bool)
    ensures
        r == (a@ == b@),
{
    let mut ia = a.chars();
    let mut ib = b.chars();
    let ghost mut done: Seq<char> = Seq::empty();
    assert(done + ia.remaining() =~= a@);
    assert(done + ib.remaining() =~= b@);
    loop
        invariant
            ia.obeys_prophetic_iter_laws(),
            ib.obeys_prophetic_iter_laws(),
            ia.decrease() is Some,
            done + ia.remaining() == a@,
            done + ib.remaining() == b@,
        decreases ia.decrease()->0,
    {
        let ghost rest_a = ia.remaining();
        let ghost rest_b = ib.remaining();
        let ca = ia.next();
        let cb = ib.next();
        match (ca, cb) {
            (Some(x), Some(y)) => {
                if x != y {
                    assert(a@[done.len() as int] == rest_a[0]);
                    assert(b@[done.len() as int] == rest_b[0]);
                    return false;
                }
                proof {
                    assert(done.push(x) + ia.remaining() =~= done + rest_a);
                    assert(done.push(x) + ib.remaining() =~= done + rest_b);
                    done = done.push(x);
                }
            },
            (None, None) => {
                assert(a@ =~= done);
                assert(b@ =~= done);
                return true;
            },
            (Some(_), None) => {
                assert(a@.len() == done.len() + rest_a.len());
                assert(b@.len() == done.len() + rest_b.len());
                return false;
            },
            (None, Some(_)) => {
                assert(a@.len() == done.len() + rest_a.len());
                assert(b@.len() == done.len() + rest_b.len());
                return false;
            },
        }
    }
}

/// The string made of the given characters.
pub fn string_of(v: &Vec<char>) -> (s: String)
    ensures
        s@ == v@,
{
    let mut s = String::new();
    let mut i: usize = 0;
    while i < v.len()
        invariant
            i <= v.len(),
            s@ == v@.subrange(0, i as int),
        decreases v.len() - i,
    {
        push_char(&mut s, v[i]);
        i = i + 1;
    }
    s
}

/// Whether `c` has the Unicode `White_Space` property.
pub open spec fn is_whitespace(c: char) -> bool {
    let u = c as u32;
    ||| 0x09 <= u <= 0x0D
    ||| u == 0x20
    ||| u == 0x85
    ||| u == 0xA0
    ||| u == 0x1680
    ||| 0x2000 <= u <= 0x200A
    ||| u == 0x2028
    ||| u == 0x2029
    ||| u == 0x202F
    ||| u == 0x205F
    ||| u == 0x3000
}

/// Executable test for [`is_whitespace`].
pub fn is_space(c: char) -> (r: bool)
    ensures
        r == is_whitespace(c),
{
    let u: u32 = c as u32;
    (0x09 <= u && u <= 0x0D) || u == 0x20 || u == 0x85 || u == 0xA0 || u == 0x1680 || (0x2000 <= u
        && u <= 0x200A) || u == 0x2028 || u == 0x2029 || u == 0x202F || u == 0x205F || u == 0x3000
}

/// Whether `pat` occurs in `s` starting exactly at index `i`.
pub open spec fn has_prefix_at(s: Seq<char>, i: int, pat: Seq<char>) -> bool {
    &&& 0 <= i
    &&& i + pat.len() <= s.len()
    &&& s.subrange(i, i + pat.len()) == pat
}

/// Index of the first occurrence of `c` in `s` at or after `i`.
pub open spec fn find_char(s: Seq<char>, c: char, i: int) -> Option<int>
    decreases s.len() - i,
{
    if i < 0 || i >= s.len() {
        None
    } else if s[i] == c {
        Some(i)
    } else {
        find_char(s, c, i + 1)
    }
}

/// Index of the last occurrence of `c` in `s` strictly before `j`.
pub open spec fn rfind_char(s: Seq<char>, c: char, j: int) -> Option<int>
    decreases j,
{
    if j <= 0 || j > s.len() {
        None
    } else if s[j - 1] == c {
        Some(j - 1)
    } else {
        rfind_char(s, c, j - 1)
    }
}

/// Index of the first occurrence of `pat` in `s` starting at or after `i`.
pub open spec fn find_seq(s: Seq<char>, pat: Seq<char>, i: int) -> Option<int>
    decreases s.len() + 1 - i,
{
    if i < 0 || i + pat.len() > s.len() {
        None
    } else if has_prefix_at(s, i, pat) {
        Some(i)
    } else {
        find_seq(s, pat, i + 1)
    }
}

/// Whether `pat` occurs anywhere in `s`.
pub open spec fn contains_seq(s: Seq<char>, pat: Seq<char>) -> bool {
    find_seq(s, pat, 0) is Some
}

/// First index at or after `i` that does not hold whitespace.
pub open spec fn skip_ws(s: Seq<char>, i: int) -> int
    decreases s.len() - i,
{
    if 0 <= i < s.len() && is_whitespace(s[i]) {
        skip_ws(s, i + 1)
    } else {
        i
    }
}

/// Smallest end `k >= lo` such that `s[k..j]` is all whitespace.
pub open spec fn skip_ws_back(s: Seq<char>, j: int, lo: int) -> int
    decreases j,
{
    if lo < j <= s.len() && 0 < j && is_whitespace(s[j - 1]) {
        skip_ws_back(s, j - 1, lo)
    } else {
        j
    }
}

/// `s` without its leading whitespace.
pub open spec fn trimmed_start(s: Seq<char>) -> Seq<char> {
    s.subrange(skip_ws(s, 0), s.len() as int)
}

/// `s` without its leading and trailing whitespace.
pub open spec fn trimmed(s: Seq<char>) -> Seq<char> {
    let a = skip_ws(s, 0);
    s.subrange(a, skip_ws_back(s, s.len() as int, a))
}

pub proof fn lemma_find_char(s: Seq<char>, c: char, i: int)
    requires
        0 <= i,
    ensures
        match find_char(s, c, i) {
            Some(k) => i <= k < s.len() && s[k] == c && forall|j: int| i <= j < k ==> s[j] != c,
            None => forall|j: int| i <= j < s.len() ==> s[j] != c,
        },
    decreases s.len() - i,
{
    if i < s.len() && s[i] != c {
        lemma_find_char(s, c, i + 1);
    }
}

pub proof fn lemma_rfind_char(s: Seq<char>, c: char, j: int)
    requires
        j <= s.len(),
    ensures
        match rfind_char(s, c, j) {
            Some(k) => 0 <= k < j && s[k] == c && forall|i: int| k < i < j ==> s[i] != c,
            None => forall|i: int| 0 <= i < j ==> s[i] != c,
        },
    decreases j,
{
    if j > 0 && s[j - 1] != c {
        lemma_rfind_char(s, c, j - 1);
    }
}

pub proof fn lemma_find_seq(s: Seq<char>, pat: Seq<char>, i: int)
    requires
        0 <= i,
    ensures
        match find_seq(s, pat, i) {
            Some(k) => i <= k && has_prefix_at(s, k, pat) && forall|j: int|
                i <= j < k ==> !has_prefix_at(s, j, pat),
            None => forall|j: int| i <= j ==> !has_prefix_at(s, j, pat),
        },
    decreases s.len() + 1 - i,
{
    if i + pat.len() <= s.len() && !has_prefix_at(s, i, pat) {
        lemma_find_seq(s, pat, i + 1);
    }
}

pub proof fn lemma_skip_ws(s: Seq<char>, i: int)
    requires
        0 <= i <= s.len(),
    ensures
        i <= skip_ws(s, i) <= s.len(),
        forall|j: int| i <= j < skip_ws(s, i) ==> is_whitespace(s[j]),
        skip_ws(s, i) < s.len() ==> !is_whitespace(s[skip_ws(s, i)]),
    decreases s.len() - i,
{
    if i < s.len() && is_whitespace(s[i]) {
        lemma_skip_ws(s, i + 1);
    }
}

/// Copies `v[from..to]`.
pub fn slice(v: &Vec<char>, from: usize, to: usize) -> (r: Vec<char>)
    requires
        from <= to <= v.len(),
    ensures
        r@ == v@.subrange(from as int, to as int),
{
    let mut r: Vec<char> = Vec::new();
    let mut i: usize = from;
    while i < to
        invariant
            from <= i <= to <= v.len(),
            r@ == v@.subrange(from as int, i as int),
        decreases to - i,
    {
        r.push(v[i]);
        i = i + 1;
    }
    r
}

/// Tests whether `pat` occurs in `v` at index `pos`.
pub fn starts_with_at(v: &Vec<char>, pos: usize, pat: &Vec<char>) -> (r: bool)
    ensures
        r == has_prefix_at(v@, pos as int, pat@),
{
    if pos > v.len() || pat.len() > v.len() - pos {
        return false;
    }
    let mut k: usize = 0;
    while k < pat.len()
        invariant
            pos + pat.len() <= v.len(),
            k <= pat.len(),
            v@.subrange(pos as int, pos + k) == pat@.subrange(0, k as int),
        decreases pat.len() - k,
    {
        if v[pos + k] != pat[k] {
            proof {
                let w = v@.subrange(pos as int, pos + pat.len());
                assert(w[k as int] != pat@[k as int]);
            }
            return false;
        }
        k = k + 1;
        assert(v@.subrange(pos as int, pos + k) =~= v@.subrange(pos as int, pos + k - 1).push(
            v@[pos + k - 1],
        ));
        assert(pat@.subrange(0, k as int) =~= pat@.subrange(0, k - 1).push(pat@[k - 1]));
    }
    assert(pat@.subrange(0, k as int) =~= pat@);
    true
}

/// Finds the first `c` in `v` at or after `from`.
pub fn find_char_from(v: &Vec<char>, c: char, from: usize) -> (r: Option<usize>)
    ensures
        match r {
            Some(k) => find_char(v@, c, from as int) == Some(k as int),
            None => find_char(v@, c, from as int) is None,
        },
{
    let mut i: usize = from;
    while i < v.len()
        invariant
            from <= i,
            find_char(v@, c, from as int) == find_char(v@, c, i as int),
        decreases v.len() - i,
    {
        if v[i] == c {
            return Some(i);
        }
        i = i + 1;
    }
    None
}

/// Finds the last `c` in `v`.
pub fn rfind_char_in(v: &Vec<char>, c: char) -> (r: Option<usize>)
    ensures
        match r {
            Some(k) => rfind_char(v@, c, v@.len() as int) == Some(k as int),
            None => rfind_char(v@, c, v@.len() as int) is None,
        },
{
    let mut j: usize = v.len();
    while j > 0
        invariant
            j <= v.len(),
            rfind_char(v@, c, v@.len() as int) == rfind_char(v@, c, j as int),
        decreases j,
    {
        if v[j - 1] == c {
            return Some(j - 1);
        }
        j = j - 1;
    }
    None
}

/// Finds the first occurrence of `pat` in `v` at or after `from`.
pub fn find_seq_from(v: &Vec<char>, pat: &Vec<char>, from: usize) -> (r: Option<usize>)
    ensures
        match r {
            Some(k) => find_seq(v@, pat@, from as int) == Some(k as int),
            None => find_seq(v@, pat@, from as int) is None,
        },
{
    if pat.len() > v.len() {
        return None;
    }
    let last: usize = v.len() - pat.len();
    let mut i: usize = from;
    while i <= last
        invariant
            from <= i,
            last + pat.len() == v.len(),
            find_seq(v@, pat@, from as int) == find_seq(v@, pat@, i as int),
        decreases last + 1 - i,
    {
        if starts_with_at(v, i, pat) {
            return Some(i);
        }
        if i == last {
            assert(find_seq(v@, pat@, i + 1) is None);
            return None;
        }
        i = i + 1;
    }
    None
}

/// Tests whether `pat` occurs anywhere in `v`.
pub fn contains(v: &Vec<char>, pat: &Vec<char>) -> (r: bool)
    ensures
        r == contains_seq(v@, pat@),
{
    find_seq_from(v, pat, 0).is_some()
}

/// Bounds of `v[from..to]` once leading and trailing whitespace is dropped.
pub fn trim_bounds(v: &Vec<char>, from: usize, to: usize) -> (r: (usize, usize))
    requires
        from <= to <= v.len(),
    ensures
        from <= r.0 <= r.1 <= to,
        v@.subrange(r.0 as int, r.1 as int) == trimmed(v@.subrange(from as int, to as int)),
{
    let ghost w = v@.subrange(from as int, to as int);
    let mut a: usize = from;
    while a < to && is_space(v[a])
        invariant
            from <= a <= to <= v.len(),
            w == v@.subrange(from as int, to as int),
            skip_ws(w, 0) == skip_ws(w, a - from),
        decreases to - a,
    {
        a = a + 1;
    }
    let mut b: usize = to;
    while b > a && is_space(v[b - 1])
        invariant
            from <= a <= b <= to <= v.len(),
            w == v@.subrange(from as int, to as int),
            skip_ws_back(w, w.len() as int, a - from) == skip_ws_back(w, b - from, a - from),
        decreases b,
    {
        b = b - 1;
    }
    assert(v@.subrange(a as int, b as int) =~= w.subrange(a - from, b - from));
    (a, b)
}

/// `v` without leading and trailing whitespace.
pub fn trim(v: &Vec<char>) -> (r: Vec<char>)
    ensures
        r@ == trimmed(v@),
{
    let (a, b) = trim_bounds(v, 0, v.len());
    assert(v@.subrange(0, v@.len() as int) =~= v@);
    slice(v, a, b)
}

/// `v` without leading whitespace.
pub fn trim_start(v: &Vec<char>) -> (r: Vec<char>)
    ensures
        r@ == trimmed_start(v@),
{
    let mut a: usize = 0;
    while a < v.len() && is_space(v[a])
        invariant
            a <= v.len(),
            skip_ws(v@, 0) == skip_ws(v@, a as int),
        decreases v.len() - a,
    {
        a = a + 1;
    }
    slice(v, a, v.len())
}

/// The views of a list of character vectors.
pub open spec fn seqs_of(v: Seq<Vec<char>>) -> Seq<Seq<char>> {
    v.map_values(|p: Vec<char>| p@)
}

/// The views of a list of strings.
pub open spec fn strs_of(v: Seq<String>) -> Seq<Seq<char>> {
    v.map_values(|p: String| p@)
}

/// The pieces of `s[i..]` between occurrences of the separator `c`.
pub open spec fn split_from(s: Seq<char>, c: char, i: int) -> Seq<Seq<char>>
    decreases s.len() - i,
    when 0 <= i <= s.len()
{
    match find_char(s, c, i) {
        Some(k) => {
            proof {
                lemma_find_char(s, c, i);
            }
            seq![s.subrange(i, k)] + split_from(s, c, k + 1)
        },
        None => seq![s.subrange(i, s.len() as int)],
    }
}

/// The pieces of `s` between occurrences of the separator `c`; never empty.
pub open spec fn split(s: Seq<char>, c: char) -> Seq<Seq<char>> {
    split_from(s, c, 0)
}

/// `s[i..]` with every non-overlapping occurrence of `pat`, found left to
/// right, replaced by `rep`.
pub open spec fn replaced_from(s: Seq<char>, pat: Seq<char>, rep: Seq<char>, i: int) -> Seq<char>
    decreases s.len() - i,
    when 0 <= i <= s.len() && pat.len() > 0
{
    match find_seq(s, pat, i) {
        Some(k) => {
            proof {
                lemma_find_seq(s, pat, i);
            }
            s.subrange(i, k) + rep + replaced_from(s, pat, rep, k + pat.len())
        },
        None => s.subrange(i, s.len() as int),
    }
}

/// `s` with every non-overlapping occurrence of `pat` replaced by `rep`.
pub open spec fn replaced(s: Seq<char>, pat: Seq<char>, rep: Seq<char>) -> Seq<char> {
    replaced_from(s, pat, rep, 0)
}

/// Splits `v` at every occurrence of `c`.
pub fn split_chars(v: &Vec<char>, c: char) -> (r: Vec<Vec<char>>)
    ensures
        seqs_of(r@) == split(v@, c),
        r@.len() >= 1,
{
    let mut out: Vec<Vec<char>> = Vec::new();
    let mut start: usize = 0;
    loop
        invariant
            start <= v.len(),
            split(v@, c) == seqs_of(out@) + split_from(v@, c, start as int),
        decreases v.len() - start,
    {
        let ghost before = seqs_of(out@);
        match find_char_from(v, c, start) {
            Some(k) => {
                proof {
                    lemma_find_char(v@, c, start as int);
                }
                let piece = slice(v, start, k);
                out.push(piece);
                assert(seqs_of(out@) =~= before + seq![v@.subrange(start as int, k as int)]);
                start = k + 1;
            },
            None => {
                let piece = slice(v, start, v.len());
                out.push(piece);
                assert(seqs_of(out@) =~= before + seq![
                    v@.subrange(start as int, v@.len() as int),
                ]);
                return out;
            },
        }
    }
}

/// Appends all of `more` to `out`.
pub fn extend(out: &mut Vec<char>, more: &Vec<char>)
    ensures
        final(out)@ == old(out)@ + more@,
{
    let mut i: usize = 0;
    while i < more.len()
        invariant
            i <= more.len(),
            out@ == old(out)@ + more@.subrange(0, i as int),
        decreases more.len() - i,
    {
        out.push(more[i]);
        i = i + 1;
        assert(out@ =~= old(out)@ + more@.subrange(0, i as int));
    }
    assert(more@.subrange(0, i as int) =~= more@);
}

/// Appends `v[from..to]` to `out`.
pub fn extend_range(out: &mut Vec<char>, v: &Vec<char>, from: usize, to: usize)
    requires
        from <= to <= v.len(),
    ensures
        final(out)@ == old(out)@ + v@.subrange(from as int, to as int),
{
    let mut i: usize = from;
    while i < to
        invariant
            from <= i <= to <= v.len(),
            out@ == old(out)@ + v@.subrange(from as int, i as int),
        decreases to - i,
    {
        out.push(v[i]);
        i = i + 1;
        assert(out@ =~= old(out)@ + v@.subrange(from as int, i as int));
    }
}

/// Replaces every non-overlapping occurrence of `pat` in `v` by `rep`.
pub fn replace_all(v: &Vec<char>, pat: &Vec<char>, rep: &Vec<char>) -> (r: Vec<char>)
    requires
        pat@.len() > 0,
    ensures
        r@ == replaced(v@, pat@, rep@),
{
    let mut out: Vec<char> = Vec::new();
    let mut start: usize = 0;
    loop
        invariant
            start <= v.len(),
            pat@.len() > 0,
            replaced(v@, pat@, rep@) == out@ + replaced_from(v@, pat@, rep@, start as int),
        decreases v.len() - start,
    {
        let ghost before = out@;
        match find_seq_from(v, pat, start) {
            Some(k) => {
                proof {
                    lemma_find_seq(v@, pat@, start as int);
                }
                extend_range(&mut out, v, start, k);
                extend(&mut out, rep);
                assert(out@ =~= before + (v@.subrange(start as int, k as int) + rep@));
                assert(replaced(v@, pat@, rep@) =~= out@ + replaced_from(
                    v@,
                    pat@,
                    rep@,
                    k + pat@.len(),
                ));
                start = k + pat.len();
            },
            None => {
                extend_range(&mut out, v, start, v.len());
                return out;
            },
        }
    }
}

} // verus!
