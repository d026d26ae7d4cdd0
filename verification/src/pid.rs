//! Parsing of process identifiers from raw directory-entry names.
//!
//! A process-table entry name is a candidate process identifier only if it
//! consists entirely of ASCII decimal digits, is at most ten digits long,
//! and its decimal value is positive and representable in an `i32`.  Every
//! other input maps to "no result": malformed names are ordinary data in a
//! process table, not an error.

use vstd::prelude::*;

verus! {

/// The byte is an ASCII decimal digit (`'0'` through `'9'`).
pub open spec fn is_digit_byte(b: u8) -> bool {
    48 <= b && b <= 57
}

/// Every byte of the sequence is an ASCII decimal digit.
pub open spec fn all_digit_bytes(s: Seq<u8>) -> bool {
    forall|i: int| 0 <= i < s.len() ==> is_digit_byte(#[trigger] s[i])
}

/// The value of a digit string read as a decimal number.
pub open spec fn digits_value(s: Seq<u8>) -> int
    decreases s.len(),
{
    if s.len() == 0 {
        0
    } else {
        digits_value(s.drop_last()) * 10 + (s.last() - 48)
    }
}

/// Ten to the power `n`.
pub open spec fn pow10(n: nat) -> int
    decreases n,
{
    if n == 0 {
        1
    } else {
        10 * pow10((n - 1) as nat)
    }
}

/// What parsing an entry name yields: the decimal value of an all-digit
/// name of at most ten digits, provided that value is positive and fits in
/// an `i32`; nothing otherwise.
pub open spec fn spec_parse_pid(s: Seq<u8>) -> Option<i32> {
    if 1 <= s.len() && s.len() <= 10 && all_digit_bytes(s) && 1 <= digits_value(s)
        && digits_value(s) <= i32::MAX {
        Some(digits_value(s) as i32)
    } else {
        None
    }
}

/// A digit string's value is bounded by ten to its length.
pub proof fn lemma_digits_value_bound(s: Seq<u8>)
    requires
        all_digit_bytes(s),
    ensures
        0 <= digits_value(s) < pow10(s.len()),
    decreases s.len(),
{
    if s.len() > 0 {
        assert(all_digit_bytes(s.drop_last()));
        lemma_digits_value_bound(s.drop_last());
        assert(is_digit_byte(s[s.len() - 1]));
    }
}

/// `pow10` is positive.
pub proof fn lemma_pow10_pos(n: nat)
    ensures
        pow10(n) >= 1,
    decreases n,
{
    if n > 0 {
        lemma_pow10_pos((n - 1) as nat);
    }
}

/// `pow10` is monotonic.
pub proof fn lemma_pow10_monotonic(a: nat, b: nat)
    requires
        a <= b,
    ensures
        pow10(a) <= pow10(b),
    decreases b,
{
    if a < b {
        lemma_pow10_monotonic(a, (b - 1) as nat);
        lemma_pow10_pos((b - 1) as nat);
    }
}

/// The concrete value of `pow10` at the identifier's digit-width cap.
pub proof fn lemma_pow10_ten()
    ensures
        pow10(10) == 10000000000,
{
    reveal_with_fuel(pow10, 11);
}

/// Parse a process identifier from the raw bytes of a directory-entry name.
///
/// Accepts exactly the all-digit names of at most ten digits whose decimal
/// value is positive and representable in an `i32`; yields that value.
/// Every other input (empty, overlong, a non-digit byte, overflow, or the
/// reserved value zero) yields `None`.  Never panics.
pub fn parse_pid_from_bytes(bytes: &[u8]) -> (r: Option<i32>)
    ensures
        r == spec_parse_pid(bytes@),
{
    if bytes.len() == 0 || bytes.len() > 10 {
        return None;
    }
    let n = bytes.len();
    let mut result: u64 = 0;
    let mut i: usize = 0;
    while i < n
        invariant
            n == bytes@.len(),
            0 < n <= 10,
            i <= n,
            all_digit_bytes(bytes@.take(i as int)),
            result == digits_value(bytes@.take(i as int)),
            result < pow10(i as nat),
        decreases n - i,
    {
        let b = bytes[i];
        if b < 48 || b > 57 {
            proof {
                assert(!is_digit_byte(bytes@[i as int]));
            }
            return None;
        }
        proof {
            let t = bytes@.take(i + 1);
            assert(t.drop_last() =~= bytes@.take(i as int));
            assert(t.last() == bytes@[i as int]);
            assert(pow10((i + 1) as nat) == 10 * pow10(i as nat));
            lemma_pow10_monotonic((i + 1) as nat, 10);
            lemma_pow10_ten();
        }
        result = result * 10 + ((b - 48) as u64);
        i = i + 1;
    }
    proof {
        assert(bytes@.take(n as int) =~= bytes@);
    }
    if result == 0 || result > 0x7fff_ffff {
        None
    } else {
        Some(result as i32)
    }
}

/// Acceptance law: an all-digit name of at most ten digits whose value is
/// positive and representable is parsed to exactly that value.  (A longer
/// all-digit name is rejected by the length cap even when leading zeros
/// keep its value small.)
pub proof fn lemma_parse_accepts_valid(s: Seq<u8>)
    requires
        all_digit_bytes(s),
        s.len() <= 10,
        1 <= digits_value(s) <= i32::MAX,
    ensures
        spec_parse_pid(s) == Some((digits_value(s) as i32)),
{
    assert(s.len() >= 1);
}

/// Rejection law: an input that is empty, overlong, holds a non-digit
/// byte, has the reserved value zero, or overflows the identifier width is
/// parsed to nothing.
pub proof fn lemma_parse_rejects_invalid(s: Seq<u8>)
    requires
        !all_digit_bytes(s) || s.len() == 0 || s.len() > 10 || digits_value(s) == 0
            || digits_value(s) > i32::MAX,
    ensures
        spec_parse_pid(s) is None,
{
    if all_digit_bytes(s) {
        lemma_digits_value_bound(s);
    }
}

} // verus!
