//! Mapping a token's subject claim to an application identity.
//!
//! The mapping is a pluggable capability: a stateless, pure conversion from
//! the raw subject string to the integrator's identity type. On failure it
//! yields the status code the rejection response should carry.

use vstd::prelude::*;
use crate::status::STATUS_BAD_REQUEST;

verus! {

/// A pure conversion from a JWT subject string to an identity value.
///
/// `sub_accepted` says on which subjects the mapping succeeds,
/// `identity_view_of` what the produced identity means, and `sub_error`
/// which status a rejected subject earns. Implementations must be stateless:
/// the result depends on the subject alone.
pub trait FromJwtSubject: View + Sized {
    spec fn sub_accepted(sub: Seq<char>) -> bool;

    spec fn identity_view_of(sub: Seq<char>) -> Self::V;

    spec fn sub_error(sub: Seq<char>) -> u16;

    fn from_jwt_sub(jwt_sub: String) -> (r: Result<Self, u16>)
        ensures
            r is Ok <==> Self::sub_accepted(jwt_sub@),
            r matches Ok(u) ==> u@ == Self::identity_view_of(jwt_sub@),
            r matches Err(e) ==> e == Self::sub_error(jwt_sub@),
    ;
}

/// The default identity: the subject string itself.
#[derive(Debug, Clone)]
pub struct UserId(pub String);

impl View for UserId {
    type V = Seq<char>;

    open spec fn view(&self) -> Seq<char> {
        self.0@
    }
}

impl FromJwtSubject for UserId {
    open spec fn sub_accepted(sub: Seq<char>) -> bool {
        true
    }

    open spec fn identity_view_of(sub: Seq<char>) -> Seq<char> {
        sub
    }

    open spec fn sub_error(sub: Seq<char>) -> u16 {
        STATUS_BAD_REQUEST
    }

    fn from_jwt_sub(jwt_sub: String) -> (r: Result<Self, u16>) {
        Ok(UserId(jwt_sub))
    }
}

/// A numeric identity: the subject must spell a decimal `i32`.
#[derive(Debug, Clone)]
pub struct UserId32(pub i32);

impl View for UserId32 {
    type V = int;

    open spec fn view(&self) -> int {
        self.0 as int
    }
}

impl FromJwtSubject for UserId32 {
    open spec fn sub_accepted(sub: Seq<char>) -> bool {
        spec_parse_i32(sub) is Some
    }

    open spec fn identity_view_of(sub: Seq<char>) -> int {
        match spec_parse_i32(sub) {
            Some(v) => v,
            None => 0,
        }
    }

    open spec fn sub_error(sub: Seq<char>) -> u16 {
        STATUS_BAD_REQUEST
    }

    fn from_jwt_sub(jwt_sub: String) -> (r: Result<Self, u16>) {
        match parse_i32(jwt_sub.as_str()) {
            Some(n) => Ok(UserId32(n)),
            None => Err(STATUS_BAD_REQUEST),
        }
    }
}

pub open spec fn is_dec_digit(c: char) -> bool {
    48 <= c as int && c as int <= 57
}

pub open spec fn digit_val(c: char) -> int {
    c as int - 48
}

pub open spec fn all_digits(s: Seq<char>) -> bool {
    forall|i: int| 0 <= i < s.len() ==> is_dec_digit(s[i])
}

/// Value of a digit string read in base ten.
pub open spec fn dec_val(s: Seq<char>) -> int
    decreases s.len(),
{
    if s.len() == 0 {
        0
    } else {
        10 * dec_val(s.drop_last()) + digit_val(s.last())
    }
}

/// A decimal `i32`: an optional sign, one or more digits, value in range.
pub open spec fn spec_parse_i32(s: Seq<char>) -> Option<int> {
    let neg = s.len() > 0 && s[0] == '-';
    let digits = if s.len() > 0 && (s[0] == '-' || s[0] == '+') {
        s.subrange(1, s.len() as int)
    } else {
        s
    };
    if digits.len() == 0 || !all_digits(digits) {
        None
    } else {
        let v = if neg {
            -dec_val(digits)
        } else {
            dec_val(digits)
        };
        if -0x8000_0000 <= v && v <= 0x7fff_ffff {
            Some(v)
        } else {
            None
        }
    }
}

pub proof fn lemma_dec_val_nonneg(s: Seq<char>)
    requires
        all_digits(s),
    ensures
        dec_val(s) >= 0,
    decreases s.len(),
{
    if s.len() > 0 {
        assert(all_digits(s.drop_last())) by {
            assert(forall|i: int| 0 <= i < s.len() - 1 ==> s.drop_last()[i] == s[i]);
        }
        lemma_dec_val_nonneg(s.drop_last());
    }
}

/// A digit string is worth at least any of its prefixes.
pub proof fn lemma_dec_val_prefix(s: Seq<char>, k: int)
    requires
        all_digits(s),
        0 <= k <= s.len(),
    ensures
        dec_val(s) >= dec_val(s.subrange(0, k)),
    decreases s.len() - k,
{
    if k < s.len() {
        lemma_dec_val_prefix(s, k + 1);
        let p = s.subrange(0, k + 1);
        assert(all_digits(p));
        assert(p.drop_last() =~= s.subrange(0, k));
        lemma_dec_val_nonneg(s.subrange(0, k));
        assert(dec_val(p) == 10 * dec_val(s.subrange(0, k)) + digit_val(p.last()));
    } else {
        assert(s.subrange(0, k) =~= s);
    }
}

/// Reads a decimal `i32` from text: an optional `+` or `-` sign followed by
/// one or more digits, rejected when empty, non-numeric, or out of range.
pub fn parse_i32(s: &str) -> (r: Option<i32>)
    ensures
        match r {
            Some(n) => spec_parse_i32(s@) == Some(n as int),
            None => spec_parse_i32(s@) is None,
        },
{
    let n = s.unicode_len();
    if n == 0 {
        return None;
    }
    let first = s.get_char(0);
    let neg = first == '-';
    let has_sign = neg || first == '+';
    let offset: usize = if has_sign {
        1
    } else {
        0
    };
    let ghost digits = if has_sign {
        s@.subrange(1, s@.len() as int)
    } else {
        s@
    };
    if n == offset {
        assert(digits.len() == 0);
        return None;
    }
    let mut acc: u64 = 0;
    let mut i = offset;
    while i < n
        invariant
            offset <= i <= n,
            n == s@.len(),
            n > 0,
            neg == (s@.len() > 0 && s@[0] == '-'),
            has_sign == (s@.len() > 0 && (s@[0] == '-' || s@[0] == '+')),
            offset == (if has_sign { 1int } else { 0int }),
            digits == (if has_sign { s@.subrange(1, s@.len() as int) } else { s@ }),
            digits.len() == n - offset,
            forall|k: int| 0 <= k < digits.len() ==> digits[k] == s@[k + offset],
            all_digits(digits.subrange(0, i - offset)),
            acc == dec_val(digits.subrange(0, i - offset)),
            acc <= 0x8000_0000,
        decreases n - i,
    {
        let c = s.get_char(i);
        let ghost done = digits.subrange(0, i - offset);
        let ghost next_pfx = digits.subrange(0, i + 1 - offset);
        proof {
            assert(next_pfx.drop_last() =~= done);
            assert(next_pfx.last() == s@[i as int]);
        }
        let u = c as u32;
        if !(48 <= u && u <= 57) {
            assert(!is_dec_digit(digits[i - offset]));
            return None;
        }
        let d = u - 48;
        let next = acc * 10 + (d as u64);
        if next > 0x8000_0000 {
            // Too large for an `i32` of either sign, whatever follows:
            // a later non-digit rejects the string outright, and further
            // digits only grow the value.
            proof {
                if all_digits(digits) {
                    assert(dec_val(next_pfx) == next);
                    lemma_dec_val_prefix(digits, i + 1 - offset);
                    assert(dec_val(digits) > 0x8000_0000);
                }
            }
            return None;
        }
        acc = next;
        i = i + 1;
    }
    assert(digits.subrange(0, i - offset) =~= digits);
    if !neg && acc > 0x7fff_ffff {
        return None;
    }
    if neg {
        let v = -(acc as i64);
        assert(-0x8000_0000 <= v <= 0);
        Some(v as i32)
    } else {
        Some(acc as i32)
    }
}

} // verus!
