use vstd::prelude::*;
use vstd::string::StrSliceExecFns;
use crate::error::{ErrV, ParseError};

verus! {

/// The numeric value of a hexadecimal digit character, or -1 when the
/// character is no such digit.
pub open spec fn hex_digit_value(c: char) -> int {
    let u = c as int;
    if '0' as int <= u && u <= '9' as int {
        u - '0' as int
    } else if 'a' as int <= u && u <= 'f' as int {
        u - 'a' as int + 10
    } else if 'A' as int <= u && u <= 'F' as int {
        u - 'A' as int + 10
    } else {
        -1
    }
}

pub open spec fn all_hex_digits(s: Seq<char>) -> bool {
    forall|i: int| 0 <= i < s.len() ==> hex_digit_value(s[i]) >= 0
}

/// A non-empty string of bare hexadecimal digits: no sign, no radix prefix,
/// no other character.
pub open spec fn is_hex_numeral(s: Seq<char>) -> bool {
    s.len() > 0 && all_hex_digits(s)
}

/// The value of a string of hexadecimal digits, most significant first.
pub open spec fn hex_value(s: Seq<char>) -> int
    decreases s.len(),
{
    if s.len() == 0 {
        0
    } else {
        16 * hex_value(s.drop_last()) + hex_digit_value(s.last())
    }
}

fn hex_digit(c: char) -> (r: Option<u32>)
    ensures
        (match r {
            Some(d) => hex_digit_value(c) == d as int && d < 16,
            None => hex_digit_value(c) < 0,
        }),
{
    let u = c as u32;
    if '0' as u32 <= u && u <= '9' as u32 {
        Some(u - '0' as u32)
    } else if 'a' as u32 <= u && u <= 'f' as u32 {
        Some(u - 'a' as u32 + 10)
    } else if 'A' as u32 <= u && u <= 'F' as u32 {
        Some(u - 'A' as u32 + 10)
    } else {
        None
    }
}

proof fn lemma_hex_overflow(s: Seq<char>, k: int)
    requires
        0 < k <= s.len(),
        all_hex_digits(s.subrange(0, k)),
        hex_value(s.subrange(0, k)) > u32::MAX as int,
    ensures
        !is_hex_numeral(s) || hex_value(s) > u32::MAX as int,
    decreases s.len() - k,
{
    if k == s.len() {
        assert(s.subrange(0, k) =~= s);
    } else if hex_digit_value(s[k]) < 0 {
        assert(!all_hex_digits(s));
    } else {
        assert forall|i: int| 0 <= i < k + 1 implies #[trigger] hex_digit_value(
            s.subrange(0, k + 1)[i],
        ) >= 0 by {
            if i < k {
                assert(s.subrange(0, k)[i] == s[i]);
            }
        }
        assert(s.subrange(0, k + 1).drop_last() =~= s.subrange(0, k));
        assert(s.subrange(0, k + 1).last() == s[k]);
        lemma_hex_overflow(s, k + 1);
    }
}

/// The unsigned 32-bit value of a hexadecimal numeral.
///
/// The text must be bare hexadecimal digits: an `0x`/`0X` radix prefix is
/// the caller's to strip beforehand.  Empty text, any non-digit character,
/// and values beyond the 32-bit range are rejected.
pub fn string_to_u32(hex_address: &str) -> (r: Result<u32, ParseError>)
    ensures
        (match r {
            Ok(n) => is_hex_numeral(hex_address@) && hex_value(hex_address@) == n as int,
            Err(e) => (!is_hex_numeral(hex_address@) || hex_value(hex_address@) > u32::MAX as int)
                && e@ == ErrV::InvalidAddress(hex_address@),
        }),
{
    let ghost s = hex_address@;
    let len = hex_address.unicode_len();
    if len == 0 {
        return Err(ParseError::InvalidAddress(hex_address.to_owned()));
    }
    let mut acc: u64 = 0;
    let mut i: usize = 0;
    while i < len
        invariant
            len == s.len(),
            0 < len,
            i <= len,
            s == hex_address@,
            all_hex_digits(s.subrange(0, i as int)),
            acc as int == hex_value(s.subrange(0, i as int)),
            acc <= u32::MAX,
        decreases len - i,
    {
        let c = hex_address.get_char(i);
        match hex_digit(c) {
            None => {
                proof {
                    assert(hex_digit_value(s[i as int]) < 0);
                    assert(!all_hex_digits(s));
                }
                return Err(ParseError::InvalidAddress(hex_address.to_owned()));
            },
            Some(d) => {
                let next: u64 = acc * 16 + d as u64;
                proof {
                    assert forall|j: int| 0 <= j < i + 1 implies #[trigger] hex_digit_value(
                        s.subrange(0, i + 1)[j],
                    ) >= 0 by {
                        if j < i {
                            assert(s.subrange(0, i as int)[j] == s[j]);
                        }
                    }
                    assert(s.subrange(0, i + 1).drop_last() =~= s.subrange(0, i as int));
                    assert(s.subrange(0, i + 1).last() == s[i as int]);
                }
                if next > 0xFFFF_FFFF {
                    proof {
                        lemma_hex_overflow(s, i + 1);
                    }
                    return Err(ParseError::InvalidAddress(hex_address.to_owned()));
                }
                acc = next;
                i += 1;
            },
        }
    }
    proof {
        assert(s.subrange(0, len as int) =~= s);
    }
    Ok(acc as u32)
}

} // verus!
