//! Locating the configured cookie inside a `Cookie` header.
//!
//! The header value is a semicolon-separated list of `name=value` pairs.
//! Matching splits each segment at its first `=`, compares the name portion
//! byte for byte (case-sensitive, no whitespace trimming), and takes the
//! first segment whose name matches. The full matched segment is kept for
//! verbatim forwarding to the remote authority; the value portion is the
//! token handed to claim extraction.

use vstd::prelude::*;
use vstd::slice::{slice_subrange, slice_to_vec};

verus! {

/// The byte that separates `name=value` pairs in a header.
pub const SEMICOLON: u8 = 59;

/// The byte that separates a pair's name from its value.
pub const EQUALS_SIGN: u8 = 61;

/// Bytes a header value may hold while still converting to text:
/// visible ASCII, space, or horizontal tab.
pub open spec fn is_header_byte(b: u8) -> bool {
    (32 <= b && b < 127) || b == 9
}

/// The whole header value converts to text.
pub open spec fn is_header_text(h: Seq<u8>) -> bool {
    forall|i: int| 0 <= i < h.len() ==> is_header_byte(h[i])
}

/// Index of the first occurrence of `b` in `h` within `[from, to)`, if any.
pub open spec fn find_in(h: Seq<u8>, b: u8, from: int, to: int) -> Option<int>
    decreases to - from,
{
    if from < 0 || from >= to || to > h.len() {
        None
    } else if h[from] == b {
        Some(from)
    } else {
        find_in(h, b, from + 1, to)
    }
}

pub proof fn lemma_find_in_bounds(h: Seq<u8>, b: u8, from: int, to: int)
    ensures
        find_in(h, b, from, to) matches Some(i) ==> from <= i < to && to <= h.len() && h[i] == b,
    decreases to - from,
{
    if !(from < 0 || from >= to || to > h.len()) && h[from] != b {
        lemma_find_in_bounds(h, b, from + 1, to);
    }
}

/// End of the segment that starts at `start`: the first `;` at or after it,
/// or the end of the header.
pub open spec fn segment_end(h: Seq<u8>, start: int) -> int {
    match find_in(h, SEMICOLON, start, h.len() as int) {
        Some(i) => i,
        None => h.len() as int,
    }
}

/// The first `name=value` pair at or after `start` whose name portion equals
/// `name`: the full segment together with the value portion.
pub open spec fn spec_locate(h: Seq<u8>, name: Seq<u8>, start: int) -> Option<(Seq<u8>, Seq<u8>)>
    decreases h.len() - start,
    via spec_locate_dec
{
    let e = segment_end(h, start);
    let hit = match find_in(h, EQUALS_SIGN, start, e) {
        Some(p) => if h.subrange(start, p) == name {
            Some((h.subrange(start, e), h.subrange(p + 1, e)))
        } else {
            None
        },
        None => None,
    };
    match hit {
        Some(pair) => Some(pair),
        None => if e >= h.len() {
            None
        } else {
            spec_locate(h, name, e + 1)
        },
    }
}

#[via_fn]
proof fn spec_locate_dec(h: Seq<u8>, name: Seq<u8>, start: int) {
    lemma_find_in_bounds(h, SEMICOLON, start, h.len() as int);
}

pub proof fn lemma_find_in_first(h: Seq<u8>, b: u8, from: int, to: int, i: int)
    requires
        0 <= from <= i < to <= h.len(),
        h[i] == b,
        forall|j: int| from <= j < i ==> h[j] != b,
    ensures
        find_in(h, b, from, to) == Some(i),
    decreases i - from,
{
    if from < i {
        lemma_find_in_first(h, b, from + 1, to, i);
    }
}

pub proof fn lemma_find_in_none(h: Seq<u8>, b: u8, from: int, to: int)
    requires
        forall|j: int| from <= j < to && j < h.len() ==> h[j] != b,
    ensures
        find_in(h, b, from, to) is None,
    decreases to - from,
{
    if !(from < 0 || from >= to || to > h.len()) {
        lemma_find_in_none(h, b, from + 1, to);
    }
}

/// Law: whatever is matched is exactly the configured name, an equals sign,
/// and the value that becomes the token — nothing else of the header travels
/// to the remote authority.
pub proof fn lemma_matched_segment_shape(h: Seq<u8>, name: Seq<u8>, start: int)
    ensures
        spec_locate(h, name, start) matches Some(pair) ==> pair.0 == name + seq![EQUALS_SIGN]
            + pair.1,
    decreases h.len() - start,
{
    lemma_find_in_bounds(h, SEMICOLON, start, h.len() as int);
    let e = segment_end(h, start);
    lemma_find_in_bounds(h, EQUALS_SIGN, start, e);
    if spec_locate(h, name, start) is Some {
        match find_in(h, EQUALS_SIGN, start, e) {
            Some(p) => {
                if h.subrange(start, p) == name {
                    assert(h.subrange(start, e) =~= h.subrange(start, p) + seq![h[p]]
                        + h.subrange(p + 1, e));
                } else if e < h.len() {
                    lemma_matched_segment_shape(h, name, e + 1);
                }
            },
            None => {
                if e < h.len() {
                    lemma_matched_segment_shape(h, name, e + 1);
                }
            },
        }
    }
}

/// Law: whatever is matched in a header that converts to text itself converts
/// to text — the matched segment can travel as a header value unchanged.
pub proof fn lemma_matched_segment_is_header_text(h: Seq<u8>, name: Seq<u8>, start: int)
    requires
        is_header_text(h),
    ensures
        spec_locate(h, name, start) matches Some(pair) ==> is_header_text(pair.0)
            && is_header_text(pair.1),
    decreases h.len() - start,
{
    lemma_find_in_bounds(h, SEMICOLON, start, h.len() as int);
    let e = segment_end(h, start);
    lemma_find_in_bounds(h, EQUALS_SIGN, start, e);
    if spec_locate(h, name, start) is Some {
        match find_in(h, EQUALS_SIGN, start, e) {
            Some(p) => {
                if h.subrange(start, p) == name {
                    assert(forall|i: int|
                        0 <= i < e - start ==> #[trigger] h.subrange(start, e)[i] == h[start
                            + i]);
                    assert(forall|i: int|
                        0 <= i < e - (p + 1) ==> #[trigger] h.subrange(p + 1, e)[i] == h[p + 1
                            + i]);
                } else if e < h.len() {
                    lemma_matched_segment_is_header_text(h, name, e + 1);
                }
            },
            None => {
                if e < h.len() {
                    lemma_matched_segment_is_header_text(h, name, e + 1);
                }
            },
        }
    }
}

/// Law: a header that consists of exactly one `name=value` pair, with a name
/// free of `=` and `;` and a value free of `;`, is matched whole, and the
/// value becomes the token.
pub proof fn lemma_single_pair_found(name: Seq<u8>, value: Seq<u8>)
    requires
        forall|i: int| 0 <= i < name.len() ==> name[i] != EQUALS_SIGN && name[i] != SEMICOLON,
        forall|i: int| 0 <= i < value.len() ==> value[i] != SEMICOLON,
    ensures
        spec_locate(name + seq![EQUALS_SIGN] + value, name, 0) == Some(
            (name + seq![EQUALS_SIGN] + value, value),
        ),
{
    let h = name + seq![EQUALS_SIGN] + value;
    let p = name.len() as int;
    assert(forall|j: int| 0 <= j < h.len() ==> h[j] != SEMICOLON);
    lemma_find_in_none(h, SEMICOLON, 0, h.len() as int);
    assert(segment_end(h, 0) == h.len() as int);
    assert(h[p] == EQUALS_SIGN);
    assert(forall|j: int| 0 <= j < p ==> h[j] == name[j] && h[j] != EQUALS_SIGN);
    lemma_find_in_first(h, EQUALS_SIGN, 0, h.len() as int, p);
    assert(h.subrange(0, p) =~= name);
    assert(h.subrange(0, h.len() as int) =~= h);
    assert(h.subrange(p + 1, h.len() as int) =~= value);
}

/// Checks that every byte of the header converts to text, as the hosting
/// framework's header-to-text conversion demands.
pub fn check_header_text(h: &Vec<u8>) -> (r: bool)
    ensures
        r == is_header_text(h@),
{
    let mut i: usize = 0;
    while i < h.len()
        invariant
            i <= h@.len(),
            forall|j: int| 0 <= j < i ==> is_header_byte(h@[j]),
        decreases h@.len() - i,
    {
        let b = h[i];
        if !((32 <= b && b < 127) || b == 9) {
            return false;
        }
        i = i + 1;
    }
    true
}

/// First occurrence of `b` in `h` within `[from, to)`.
pub fn find_byte_in(h: &Vec<u8>, b: u8, from: usize, to: usize) -> (r: Option<usize>)
    requires
        from <= to && to <= h@.len(),
    ensures
        match r {
            Some(i) => from <= i < to && find_in(h@, b, from as int, to as int) == Some(i as int),
            None => find_in(h@, b, from as int, to as int) is None,
        },
{
    let mut i = from;
    while i < to
        invariant
            from <= i <= to <= h@.len(),
            find_in(h@, b, from as int, to as int) == find_in(h@, b, i as int, to as int),
        decreases to - i,
    {
        if h[i] == b {
            return Some(i);
        }
        i = i + 1;
    }
    None
}

/// Do the bytes of `h` in `[start, start + name.len())` spell `name`?
fn range_matches(h: &Vec<u8>, start: usize, len: usize, name: &Vec<u8>) -> (r: bool)
    requires
        start + len <= h@.len(),
    ensures
        r == (h@.subrange(start as int, start as int + len as int) == name@),
{
    if len != name.len() {
        assert(h@.subrange(start as int, start as int + len as int).len() == len);
        return false;
    }
    let hlen = h.len();
    let mut j: usize = 0;
    while j < len
        invariant
            j <= len,
            len == name@.len(),
            start + len <= h@.len(),
            h@.len() == hlen,
            forall|k: int| 0 <= k < j ==> h@[start + k] == name@[k],
        decreases len - j,
    {
        if h[start + j] != name[j] {
            assert(h@.subrange(start as int, start as int + len as int)[j as int] != name@[j as int]);
            return false;
        }
        j = j + 1;
    }
    assert(h@.subrange(start as int, start as int + len as int) =~= name@);
    true
}

/// First-match cookie lookup: the full matched segment and its value portion.
pub fn locate_cookie(h: &Vec<u8>, name: &Vec<u8>) -> (r: Option<(Vec<u8>, Vec<u8>)>)
    ensures
        match r {
            Some(pair) => spec_locate(h@, name@, 0) == Some((pair.0@, pair.1@)),
            None => spec_locate(h@, name@, 0) is None,
        },
{
    let mut start: usize = 0;
    loop
        invariant
            start <= h@.len(),
            spec_locate(h@, name@, 0) == spec_locate(h@, name@, start as int),
        decreases h@.len() - start,
    {
        let e = match find_byte_in(h, SEMICOLON, start, h.len()) {
            Some(i) => i,
            None => h.len(),
        };
        assert(e == segment_end(h@, start as int));
        let hit: Option<usize> = match find_byte_in(h, EQUALS_SIGN, start, e) {
            Some(p) => {
                if range_matches(h, start, p - start, name) {
                    assert(h@.subrange(start as int, p as int) == name@);
                    Some(p)
                } else {
                    assert(h@.subrange(start as int, p as int) != name@);
                    None
                }
            },
            None => None,
        };
        if let Some(p) = hit {
            let segment = slice_to_vec(slice_subrange(h.as_slice(), start, e));
            let token = slice_to_vec(slice_subrange(h.as_slice(), p + 1, e));
            assert(spec_locate(h@, name@, start as int) == Some((segment@, token@)));
            return Some((segment, token));
        }
        if e >= h.len() {
            assert(spec_locate(h@, name@, start as int) is None);
            return None;
        }
        start = e + 1;
    }
}

} // verus!
