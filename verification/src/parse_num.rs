//! Reading the `id` query parameter: a decimal signed integer, with any
//! string that is not one — the empty string included — falling back to
//! zero, the id no stored row carries.

use vstd::prelude::*;
use vstd::string::*;

verus! {

/// The character is a decimal digit.
pub open spec fn is_dec_digit(c: char) -> bool {
    48 <= c as int && c as int <= 57
}

/// The value of a decimal digit character.
pub open spec fn digit_val(c: char) -> int {
    c as int - 48
}

/// Every character of the sequence is a decimal digit.
pub open spec fn all_dec_digits(s: Seq<char>) -> bool {
    forall|i: int| 0 <= i < s.len() ==> is_dec_digit(s[i])
}

/// The value of a digit sequence read as a decimal numeral.
pub open spec fn digits_val(s: Seq<char>) -> int
    decreases s.len(),
{
    if s.len() == 0 {
        0
    } else {
        digits_val(s.drop_last()) * 10 + digit_val(s.last())
    }
}

/// The text without its leading sign, if it carries one.
pub open spec fn unsigned_part(s: Seq<char>) -> Seq<char> {
    if s.len() > 0 && (s[0] == '-' || s[0] == '+') {
        s.subrange(1, s.len() as int)
    } else {
        s
    }
}

/// The text carries a leading minus sign.
pub open spec fn is_negative(s: Seq<char>) -> bool {
    s.len() > 0 && s[0] == '-'
}

/// The signed value the text denotes, digit-wise.
pub open spec fn dec_value(s: Seq<char>) -> int {
    if is_negative(s) {
        -digits_val(unsigned_part(s))
    } else {
        digits_val(unsigned_part(s))
    }
}

/// The text is a decimal numeral whose value a 64-bit signed integer holds:
/// an optional sign, then at least one digit, and a value in range.
pub open spec fn is_i64_decimal(s: Seq<char>) -> bool {
    &&& unsigned_part(s).len() > 0
    &&& all_dec_digits(unsigned_part(s))
    &&& i64::MIN <= dec_value(s) <= i64::MAX
}

/// What the parse falls to: the denoted value, or zero for any text that is
/// not an in-range decimal numeral.
pub open spec fn parse_i64_or_zero_spec(s: Seq<char>) -> int {
    if is_i64_decimal(s) {
        dec_value(s)
    } else {
        0
    }
}

/// A digit sequence never denotes a negative value.
proof fn lemma_digits_val_nonneg(s: Seq<char>)
    requires
        all_dec_digits(s),
    ensures
        digits_val(s) >= 0,
    decreases s.len(),
{
    if s.len() > 0 {
        assert(all_dec_digits(s.drop_last()));
        lemma_digits_val_nonneg(s.drop_last());
    }
}

/// Extending a digit sequence to the right never shrinks its value.
proof fn lemma_digits_val_prefix_le(s: Seq<char>, i: int)
    requires
        0 <= i <= s.len(),
        all_dec_digits(s),
    ensures
        digits_val(s.subrange(0, i)) <= digits_val(s),
    decreases s.len() - i,
{
    if i < s.len() {
        let shorter = s.subrange(0, i);
        let longer = s.subrange(0, i + 1);
        assert(longer.drop_last() =~= shorter);
        assert(all_dec_digits(shorter));
        lemma_digits_val_nonneg(shorter);
        let v = digits_val(shorter);
        assert(v <= v * 10) by (nonlinear_arith)
            requires
                v >= 0,
        ;
        assert(digits_val(longer) == v * 10 + digit_val(s[i]));
        lemma_digits_val_prefix_le(s, i + 1);
        assert(s.subrange(0, s.len() as int) =~= s);
    } else {
        assert(s.subrange(0, i) =~= s);
    }
}

/// Parse the text as a decimal 64-bit signed integer, falling back to zero
/// when the text is empty, malformed, or out of range.
pub fn parse_i64_or_zero(s: &str) -> (r: i64)
    ensures
        r as int == parse_i64_or_zero_spec(s@),
{
    let len = s.unicode_len();
    let ghost u = unsigned_part(s@);
    if len == 0 {
        return 0;
    }
    let first = s.get_char(0);
    let fu = first as u32;
    let neg = fu == 45;
    let has_sign = neg || fu == 43;
    let start: usize = if has_sign {
        1
    } else {
        0
    };
    proof {
        if has_sign {
            assert(u =~= s@.subrange(1, s@.len() as int));
        } else {
            assert(u =~= s@);
        }
        assert(is_negative(s@) == neg);
    }
    if start >= len {
        // A bare sign, or nothing at all: no digits, so no numeral.
        assert(u.len() == 0);
        return 0;
    }
    let mut mag: u64 = 0;
    let mut i: usize = start;
    proof {
        assert(u.subrange(0, 0) =~= Seq::<char>::empty());
    }
    while i < len
        invariant
            start <= i <= len,
            len == s@.len(),
            start == if has_sign { 1int } else { 0int },
            u == unsigned_part(s@),
            u.len() == len - start,
            forall|j: int| 0 <= j < u.len() ==> u[j] == s@[start + j],
            all_dec_digits(u.subrange(0, i - start)),
            mag as int == digits_val(u.subrange(0, i - start)),
        decreases len - i,
    {
        let ghost k = i - start;
        let c = s.get_char(i);
        let cu = c as u32;
        proof {
            assert(u[k] == s@[i as int]);
            assert(u.subrange(0, k + 1).drop_last() =~= u.subrange(0, k));
            assert(u.subrange(0, k + 1).last() == u[k]);
        }
        if cu < 48 || cu > 57 {
            // A non-digit anywhere makes the whole text fall back to zero.
            assert(!is_dec_digit(u[k]));
            assert(!all_dec_digits(u));
            return 0;
        }
        let d = (cu - 48) as u64;
        let stepped = match mag.checked_mul(10) {
            Option::Some(m) => m.checked_add(d),
            Option::None => Option::None,
        };
        match stepped {
            Option::Some(m2) => {
                mag = m2;
            },
            Option::None => {
                // The magnitude has outgrown 64 bits, so whatever follows,
                // the value cannot sit in a 64-bit signed integer.
                proof {
                    assert(digits_val(u.subrange(0, k + 1)) == (mag as int) * 10 + digit_val(
                        u[k],
                    ));
                    assert(digits_val(u.subrange(0, k + 1)) > u64::MAX as int);
                    if all_dec_digits(u) {
                        lemma_digits_val_prefix_le(u, k + 1);
                        assert(digits_val(u) > u64::MAX as int);
                        assert(!is_i64_decimal(s@));
                    }
                }
                return 0;
            },
        }
        i = i + 1;
    }
    proof {
        assert(u.subrange(0, u.len() as int) =~= u);
        lemma_digits_val_nonneg(u);
    }
    if neg {
        // The magnitude of the least value is one past the greatest.
        if mag > 9223372036854775808u64 {
            assert(dec_value(s@) < i64::MIN);
            return 0;
        }
        if mag == 9223372036854775808u64 {
            return i64::MIN;
        }
        -(mag as i64)
    } else {
        if mag > i64::MAX as u64 {
            assert(dec_value(s@) > i64::MAX);
            return 0;
        }
        mag as i64
    }
}

} // verus!
