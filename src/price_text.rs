use vstd::prelude::*;
use vstd::string::StringSliceAdditionalSpecFns;

use crate::types::PriceCents;

verus! {

pub open spec fn is_digit(c: u8) -> bool {
    48 <= c <= 57
}

pub open spec fn all_digits(s: Seq<u8>) -> bool {
    forall|i: int| 0 <= i < s.len() ==> is_digit(#[trigger] s[i])
}

/// The number that a run of decimal digits writes.
pub open spec fn digits_value(s: Seq<u8>) -> nat
    decreases s.len(),
{
    if s.len() == 0 {
        0
    } else {
        digits_value(s.drop_last()) * 10 + (s.last() - 48) as nat
    }
}

/// The index of the first `.` in `s` from `i` on, or the length.
pub open spec fn first_dot(s: Seq<u8>, i: int) -> int
    decreases s.len() - i,
{
    if i < 0 || i >= s.len() {
        s.len() as int
    } else if s[i] == 46 {
        i
    } else {
        first_dot(s, i + 1)
    }
}

pub open spec fn digit_at(f: Seq<u8>, i: int) -> nat {
    if 0 <= i < f.len() {
        (f[i] - 48) as nat
    } else {
        0
    }
}

/// Cents of a fraction's digits: the first two, rounded half up by the third.
pub open spec fn fraction_cents(f: Seq<u8>) -> nat {
    digit_at(f, 0) * 10 + digit_at(f, 1) + if digit_at(f, 2) >= 5 { 1nat } else { 0nat }
}

/// A decimal price `digits` or `digits.digits`.
pub open spec fn price_text_valid(s: Seq<u8>) -> bool {
    let k = first_dot(s, 0);
    &&& k > 0
    &&& all_digits(s.subrange(0, k))
    &&& k < s.len() ==> (k + 1 < s.len() && all_digits(s.subrange(k + 1, s.len() as int)))
}

/// Cents that a valid decimal price writes.
pub open spec fn price_text_cents(s: Seq<u8>) -> nat {
    let k = first_dot(s, 0);
    digits_value(s.subrange(0, k)) * 100 + if k < s.len() {
        fraction_cents(s.subrange(k + 1, s.len() as int))
    } else {
        0nat
    }
}

/// What [`parse_price`] returns for the bytes of a text.
pub open spec fn parse_price_spec(s: Seq<u8>) -> nat {
    if price_text_valid(s) && price_text_cents(s) <= u16::MAX {
        price_text_cents(s)
    } else {
        0
    }
}

proof fn lemma_first_dot_bounds(s: Seq<u8>, i: int)
    requires
        0 <= i <= s.len(),
    ensures
        i <= first_dot(s, i) <= s.len(),
    decreases s.len() - i,
{
    if i < s.len() && s[i] != 46 {
        lemma_first_dot_bounds(s, i + 1);
    }
}

proof fn lemma_digits_prefix(s: Seq<u8>, i: int)
    requires
        all_digits(s),
        0 <= i <= s.len(),
    ensures
        digits_value(s.subrange(0, i)) <= digits_value(s),
    decreases s.len(),
{
    if i < s.len() {
        assert(s.drop_last().subrange(0, i) =~= s.subrange(0, i));
        assert(all_digits(s.drop_last()));
        lemma_digits_prefix(s.drop_last(), i);
    } else {
        assert(s.subrange(0, i) =~= s);
    }
}

/// Parses a decimal dollar price (`"0.45"`, `"0.5"`, `"1"`) into cents,
/// rounding half up by the third decimal; 0 when the text is no such price
/// or the price does not fit.
pub fn parse_price(s: &str) -> (r: PriceCents)
    ensures
        r == parse_price_spec(s.spec_bytes()),
{
    let b = s.as_bytes();
    let ghost sb = b@;
    let n = b.len();
    let mut acc: u32 = 0;
    let mut i: usize = 0;
    while i < n && b[i] != 46u8
        invariant
            b@ == sb,
            sb == s.spec_bytes(),
            n == sb.len(),
            0 <= i <= n,
            acc == digits_value(sb.subrange(0, i as int)),
            acc <= 655,
            all_digits(sb.subrange(0, i as int)),
            first_dot(sb, 0) == first_dot(sb, i as int),
        decreases n - i,
    {
        let c = b[i];
        if c < 48u8 || c > 57u8 {
            proof {
                let k = first_dot(sb, 0);
                lemma_first_dot_bounds(sb, i + 1);
                assert(k > i);
                if k <= sb.len() {
                    assert(sb.subrange(0, k)[i as int] == c);
                }
                assert(!price_text_valid(sb));
            }
            return 0;
        }
        proof {
            assert(sb.subrange(0, i + 1).drop_last() =~= sb.subrange(0, i as int));
            assert(all_digits(sb.subrange(0, i + 1)));
        }
        acc = acc * 10 + (c - 48u8) as u32;
        if acc > 655 {
            proof {
                let k = first_dot(sb, 0);
                lemma_first_dot_bounds(sb, i + 1);
                if price_text_valid(sb) {
                    assert(k >= i + 1);
                    assert(sb.subrange(0, k).subrange(0, i + 1) =~= sb.subrange(0, i + 1));
                    lemma_digits_prefix(sb.subrange(0, k), i + 1);
                }
            }
            return 0;
        }
        i = i + 1;
    }
    let k = i;
    proof {
        assert(first_dot(sb, 0) == k);
    }
    if k == 0 {
        return 0;
    }
    let mut frac: u32 = 0;
    if k < n {
        if k + 1 == n {
            return 0;
        }
        let ghost f = sb.subrange(k + 1, n as int);
        let mut j: usize = k + 1;
        while j < n
            invariant
                b@ == sb,
                n == sb.len(),
                k + 1 <= j <= n,
                f == sb.subrange(k + 1, n as int),
                k == first_dot(sb, 0),
                k < n,
                sb == s.spec_bytes(),
                forall|t: int| k + 1 <= t < j ==> is_digit(#[trigger] sb[t]),
            decreases n - j,
        {
            if b[j] < 48u8 || b[j] > 57u8 {
                proof {
                    assert(f[j - k - 1] == b@[j as int]);
                    assert(!all_digits(f));
                    assert(!price_text_valid(sb));
                }
                return 0;
            }
            j = j + 1;
        }
        proof {
            assert forall|t: int| 0 <= t < f.len() implies is_digit(#[trigger] f[t]) by {
                assert(f[t] == sb[t + k + 1]);
            }
        }
        let d0: u32 = (b[k + 1] - 48u8) as u32;
        let d1: u32 = if n - k > 2 { (b[k + 2] - 48u8) as u32 } else { 0 };
        let d2: u32 = if n - k > 3 { (b[k + 3] - 48u8) as u32 } else { 0 };
        proof {
            assert(d0 == digit_at(f, 0));
            assert(d1 == digit_at(f, 1));
            assert(d2 == digit_at(f, 2));
        }
        frac = d0 * 10 + d1 + if d2 >= 5 { 1 } else { 0 };
    }
    let total: u32 = acc * 100 + frac;
    if total > 65535 {
        return 0;
    }
    total as u16
}

} // verus!
