//! The session token's payload: a user id as decimal text. The token itself
//! is sealed and opened by the web layer's encrypted cookies, under a server
//! secret; the library decides what its payload says.

use vstd::prelude::*;
use crate::UserID;

verus! {

pub open spec fn is_digit(c: char) -> bool {
    '0' <= c && c <= '9'
}

pub open spec fn digit_value(c: char) -> nat {
    (c as u32 - '0' as u32) as nat
}

pub open spec fn digit_char(d: nat) -> char {
    seq!['0', '1', '2', '3', '4', '5', '6', '7', '8', '9'][d as int]
}

/// The decimal digits of `n`, most significant first, without leading zeros.
pub open spec fn decimal_of(n: nat) -> Seq<char>
    decreases n,
{
    if n < 10 {
        seq![digit_char(n)]
    } else {
        decimal_of(n / 10).push(digit_char(n % 10))
    }
}

/// The number a string of digits spells.
pub open spec fn digits_value(s: Seq<char>) -> nat
    decreases s.len(),
{
    if s.len() == 0 {
        0
    } else {
        digits_value(s.drop_last()) * 10 + digit_value(s.last())
    }
}

pub open spec fn all_digits(s: Seq<char>) -> bool {
    forall|i: int| 0 <= i < s.len() ==> is_digit(#[trigger] s[i])
}

/// How a `u32` is read from text: an optional '+', then one or more decimal
/// digits whose value fits in 32 bits.
pub open spec fn parse_u32(s: Seq<char>) -> Option<u32> {
    let d = if s.len() > 0 && s[0] == '+' { s.drop_first() } else { s };
    if d.len() > 0 && all_digits(d) && digits_value(d) <= u32::MAX {
        Some(digits_value(d) as u32)
    } else {
        None
    }
}

proof fn lemma_digit_round_trip(d: nat)
    requires
        d < 10,
    ensures
        is_digit(digit_char(d)),
        digit_value(digit_char(d)) == d,
        digit_char(d) != '+',
{
}

proof fn lemma_decimal_of(n: nat)
    ensures
        decimal_of(n).len() > 0,
        all_digits(decimal_of(n)),
        decimal_of(n)[0] != '+',
        digits_value(decimal_of(n)) == n,
    decreases n,
{
    if n < 10 {
        lemma_digit_round_trip(n);
        assert(decimal_of(n).drop_last() =~= Seq::<char>::empty());
        assert(digits_value(Seq::<char>::empty()) == 0);
        assert(decimal_of(n).last() == digit_char(n));
        assert(digits_value(decimal_of(n)) == digits_value(decimal_of(n).drop_last()) * 10
            + digit_value(decimal_of(n).last()));
    } else {
        lemma_decimal_of(n / 10);
        lemma_digit_round_trip(n % 10);
        let s = decimal_of(n);
        assert(s.drop_last() =~= decimal_of(n / 10));
        assert(s[0] == decimal_of(n / 10)[0]);
        assert(s.last() == digit_char(n % 10));
        assert(digits_value(s) == digits_value(s.drop_last()) * 10 + digit_value(s.last()));
        assert((n / 10) * 10 + n % 10 == n);
        assert forall|i: int| 0 <= i < s.len() implies is_digit(#[trigger] s[i]) by {
            if i < s.len() - 1 {
                assert(s[i] == decimal_of(n / 10)[i]);
            }
        }
    }
}

proof fn lemma_prefix_value_le(s: Seq<char>, i: int)
    requires
        0 <= i <= s.len(),
    ensures
        digits_value(s.subrange(0, i)) <= digits_value(s),
    decreases s.len(),
{
    if i == s.len() {
        assert(s.subrange(0, i) =~= s);
    } else {
        lemma_prefix_value_le(s.drop_last(), i);
        assert(s.drop_last().subrange(0, i) =~= s.subrange(0, i));
    }
}

/// Reading back the text of a user id gives that id: a token issued for a
/// user resolves to the same user.
pub proof fn lemma_session_round_trip(id: u32)
    ensures
        parse_u32(decimal_of(id as nat)) == Some(id),
{
    lemma_decimal_of(id as nat);
}

/// Relies on std's `ToString` for `u32`, through its `Display`: the decimal
/// digits of the number, without sign or leading zeros.
#[verifier::external_body]
fn decimal_text(n: u32) -> (r: String)
    ensures
        r@ == decimal_of(n as nat),
{
    n.to_string()
}

/// The payload of the session token issued for `id`.
pub fn session_value(id: UserID) -> (r: String)
    ensures
        r@ == decimal_of(id.0 as nat),
{
    decimal_text(id.0)
}

/// The user a session token's payload names, if it names one.
pub fn parse_session(value: &str) -> (r: Option<UserID>)
    ensures
        r == match parse_u32(value@) {
            Some(n) => Some(UserID(n)),
            None => None::<UserID>,
        },
{
    let len = value.unicode_len();
    let mut start: usize = 0;
    if len > 0 && value.get_char(0) == '+' {
        start = 1;
    }
    if start >= len {
        return None;
    }
    let ghost d = if start == 1 { value@.drop_first() } else { value@ };
    assert(d =~= value@.subrange(start as int, len as int));
    let mut acc: u64 = 0;
    let mut i: usize = start;
    while i < len
        invariant
            start <= i <= len,
            len == value@.len(),
            start < len,
            d == value@.subrange(start as int, len as int),
            d == (if value@.len() > 0 && value@[0] == '+' { value@.drop_first() } else { value@ }),
            all_digits(value@.subrange(start as int, i as int)),
            acc == digits_value(value@.subrange(start as int, i as int)),
            acc <= u32::MAX,
        decreases len - i,
    {
        let c = value.get_char(i);
        let ghost pre = value@.subrange(start as int, i as int + 1);
        proof {
            assert(pre.drop_last() =~= value@.subrange(start as int, i as int));
            assert(pre =~= d.subrange(0, i - start + 1));
        }
        if !('0' <= c && c <= '9') {
            assert(!is_digit(d[i - start]));
            return None;
        }
        let v = (c as u32 - '0' as u32) as u64;
        acc = acc * 10 + v;
        if acc > u32::MAX as u64 {
            proof {
                lemma_prefix_value_le(d, i - start + 1);
            }
            return None;
        }
        i += 1;
        proof {
            assert forall|k: int| 0 <= k < pre.len() implies is_digit(#[trigger] pre[k]) by {
                if k < pre.len() - 1 {
                    assert(pre[k] == value@.subrange(start as int, i - 1)[k]);
                }
            }
        }
    }
    assert(value@.subrange(start as int, i as int) =~= d);
    Some(UserID(acc as u32))
}

} // verus!
