//! The two tunables — buffer count and buffer size — and the exact model
//! of parsing a positive integer from configuration text, falling back to
//! a default on absence or parse failure.

use vstd::prelude::*;
use vstd::string::StringSliceAdditionalSpecFns;

verus! {

pub const BUFFER_COUNT_DEFAULT: usize = 8;

pub const BUFFER_SIZE_DEFAULT: usize = 150_000_000;

/// An ASCII decimal digit.
pub open spec fn is_digit(b: u8) -> bool {
    48 <= b <= 57
}

/// Every byte is a decimal digit.
pub open spec fn all_digits(s: Seq<u8>) -> bool {
    forall|i: int| 0 <= i < s.len() ==> is_digit(#[trigger] s[i])
}

/// The value of a digit string, most significant digit first.
pub open spec fn digits_val(s: Seq<u8>) -> int
    decreases s.len(),
{
    if s.len() == 0 {
        0
    } else {
        digits_val(s.take(s.len() - 1)) * 10 + (s[s.len() - 1] - 48)
    }
}

/// The digits of the text, after at most one leading plus sign.
pub open spec fn digits_part(s: Seq<u8>) -> Seq<u8> {
    if s.len() >= 1 && s[0] == 43 {
        s.skip(1)
    } else {
        s
    }
}

/// What parsing the text as a machine-sized unsigned integer yields: its
/// digits' value, if the text is one optional plus sign followed by at
/// least one digit and the value fits.
pub open spec fn parse_usize_spec(s: Seq<u8>) -> Option<int> {
    let d = digits_part(s);
    if d.len() >= 1 && all_digits(d) && digits_val(d) <= usize::MAX {
        Some(digits_val(d))
    } else {
        None
    }
}

proof fn lemma_digits_nonneg(s: Seq<u8>)
    requires
        all_digits(s),
    ensures
        digits_val(s) >= 0,
    decreases s.len(),
{
    if s.len() > 0 {
        assert(all_digits(s.take(s.len() - 1)));
        lemma_digits_nonneg(s.take(s.len() - 1));
    }
}

/// One more digit multiplies the prefix value by ten and adds the digit.
proof fn lemma_digits_extend(s: Seq<u8>, j: int)
    requires
        0 <= j < s.len(),
    ensures
        digits_val(s.take(j + 1)) == digits_val(s.take(j)) * 10 + (s[j] - 48),
{
    let t = s.take(j + 1);
    assert(t.take(j) =~= s.take(j));
    assert(t[j] == s[j]);
}

/// A digit string is worth at least any of its prefixes.
proof fn lemma_digits_grow(s: Seq<u8>, j: int)
    requires
        all_digits(s),
        0 <= j <= s.len(),
    ensures
        digits_val(s) >= digits_val(s.take(j)),
    decreases s.len() - j,
{
    if j < s.len() {
        lemma_digits_extend(s, j);
        assert(all_digits(s.take(j)));
        lemma_digits_nonneg(s.take(j));
        lemma_digits_grow(s, j + 1);
    } else {
        assert(s.take(j) =~= s);
    }
}

/// Parse the text as a machine-sized unsigned integer: one optional plus
/// sign, then at least one decimal digit, rejecting overflow.
pub fn parse_usize(t: &str) -> (r: Option<usize>)
    ensures
        r is Some <==> parse_usize_spec(t.spec_bytes()) is Some,
        r matches Some(n) ==> parse_usize_spec(t.spec_bytes()) == Some(n as int),
{
    let bytes = t.as_bytes();
    let len = bytes.len();
    let ghost d = digits_part(bytes@);
    let start: usize = if len >= 1 && *vstd::slice::slice_index_get(bytes, 0) == 43 {
        1
    } else {
        0
    };
    proof {
        assert(d =~= bytes@.skip(start as int));
    }
    if len == start {
        return None;
    }
    let mut acc: usize = 0;
    let mut i: usize = start;
    while i < len
        invariant
            bytes@ == t.spec_bytes(),
            bytes@.len() == len,
            d == bytes@.skip(start as int),
            d == digits_part(t.spec_bytes()),
            start <= i <= len,
            start <= len,
            all_digits(d.take(i - start)),
            acc as int == digits_val(d.take(i - start)),
        decreases len - i,
    {
        let b = *vstd::slice::slice_index_get(bytes, i);
        if b < 48 || b > 57 {
            proof {
                assert(d[i - start] == bytes@[i as int]);
                assert(!all_digits(d));
            }
            return None;
        }
        let digit = (b - 48) as usize;
        proof {
            lemma_digits_extend(d, i - start);
        }
        if acc > (usize::MAX - digit) / 10 {
            proof {
                assert(digits_val(d.take(i - start + 1)) > usize::MAX) by {
                    assert(acc as int * 10 + digit > usize::MAX) by (nonlinear_arith)
                        requires
                            acc as int > (usize::MAX as int - digit) / 10,
                            0 <= digit <= 9,
                    ;
                }
                if all_digits(d) {
                    lemma_digits_grow(d, i - start + 1);
                }
            }
            return None;
        }
        acc = acc * 10 + digit;
        i += 1;
        proof {
            assert(d.take(i - start) =~= d.take(i - 1 - start + 1));
        }
    }
    proof {
        assert(d.take(i - start) =~= d);
    }
    Some(acc)
}

/// The configured value: the text parsed as a positive integer, or the
/// default on absence or parse failure. A tunable must be positive, so a
/// parsed zero falls back to the default too.
pub fn usize_or_default(v: Option<&str>, default: usize) -> (r: usize)
    ensures
        v is None ==> r == default,
        v matches Some(t) ==> r as int == (match parse_usize_spec(t.spec_bytes()) {
            Some(n) => if n > 0 {
                n
            } else {
                default as int
            },
            None => default as int,
        }),
{
    match v {
        Some(t) => match parse_usize(t) {
            Some(n) => if n > 0 {
                n
            } else {
                default
            },
            None => default,
        },
        None => default,
    }
}

} // verus!
