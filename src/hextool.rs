//! Helpers of the byte-level file patch tool: reading an offset, turning a
//! hexadecimal string into bytes, and the printable form of a byte.

use vstd::prelude::*;
use vstd::string::StringSliceAdditionalSpecFns;

verus! {

/// The value of an ASCII digit or letter in `radix`, if it is one.
pub open spec fn digit_value(c: u8, radix: nat) -> Option<nat> {
    let v: int = if 48 <= c <= 57 {
        c - 48
    } else if 97 <= c <= 122 {
        c - 87
    } else if 65 <= c <= 90 {
        c - 55
    } else {
        radix as int
    };
    if v < radix {
        Some(v as nat)
    } else {
        None
    }
}

/// The value of a string of digits in `radix`; `None` if any byte is not
/// such a digit. The empty string has value zero.
pub open spec fn digits_value(s: Seq<u8>, radix: nat) -> Option<nat>
    decreases s.len(),
{
    if s.len() == 0 {
        Some(0)
    } else {
        match (digits_value(s.drop_last(), radix), digit_value(s.last(), radix)) {
            (Some(v), Some(d)) => Some(v * radix + d),
            _ => None,
        }
    }
}

/// An unsigned integer in `radix` read as std's `from_str_radix` reads it:
/// an optional `+`, then at least one digit, with a value below `max + 1`.
pub open spec fn parse_unsigned(s: Seq<u8>, radix: nat, max: nat) -> Option<nat> {
    let body = if s.len() > 0 && s[0] == 43 { s.drop_first() } else { s };
    if body.len() == 0 {
        None
    } else {
        match digits_value(body, radix) {
            Some(v) => if v <= max { Some(v) } else { None },
            None => None,
        }
    }
}

/// Whether `s` begins with `0x`.
pub open spec fn has_hex_prefix(s: Seq<u8>) -> bool {
    s.len() >= 2 && s[0] == 48 && s[1] == 120
}

/// Why an offset was refused.
#[derive(Clone, Copy, Debug, PartialEq, Eq, Structural)]
pub enum OffsetError {
    InvalidHex,
    InvalidDecimal,
}

/// Why a hexadecimal string was refused.
#[derive(Clone, Copy, Debug, PartialEq, Eq, Structural)]
pub enum HexError {
    OddLength,
    InvalidByte,
}

/// The byte at `2 * i` and `2 * i + 1` of `s`, read as std reads a `u8` in
/// base 16.
pub open spec fn pair_value(s: Seq<u8>, i: int) -> Option<nat> {
    parse_unsigned(s.subrange(2 * i, 2 * i + 2), 16, 255)
}

/// Whether every pair of `s` reads as a byte.
pub open spec fn all_pairs_valid(s: Seq<u8>) -> bool {
    forall|i: int| 0 <= i < s.len() / 2 ==> (#[trigger] pair_value(s, i)).is_some()
}

proof fn lemma_digit_bound(c: u8, radix: nat)
    ensures
        digit_value(c, radix) matches Some(d) ==> d < radix,
{
}

/// Once the digits read so far exceed `max`, or a byte that is not a digit
/// has been read, no continuation reads as a value up to `max`.
proof fn lemma_overflow_stays(s: Seq<u8>, k: int, radix: nat, max: nat)
    requires
        0 <= k <= s.len(),
        radix >= 1,
        digits_value(s.subrange(0, k), radix) matches Some(v) ==> v > max,
    ensures
        digits_value(s, radix) matches Some(w) ==> w > max,
    decreases s.len() - k,
{
    if k < s.len() {
        let t = s.subrange(0, k + 1);
        assert(t.drop_last() =~= s.subrange(0, k));
        if let (Some(v), Some(d)) = (digits_value(s.subrange(0, k), radix), digit_value(t.last(), radix)) {
            assert(v * radix + d >= v) by (nonlinear_arith)
                requires radix >= 1, d >= 0, v >= 0;
        }
        lemma_overflow_stays(s, k + 1, radix, max);
    } else {
        assert(s.subrange(0, k) =~= s);
    }
}

fn digit_of(c: u8, radix: u64) -> (r: Option<u64>)
    requires
        2 <= radix <= 36,
    ensures
        r matches Some(d) ==> digit_value(c, radix as nat) == Some(d as nat),
        r is None ==> digit_value(c, radix as nat) is None,
{
    let v: u64 = if 48 <= c && c <= 57 {
        (c - 48) as u64
    } else if 97 <= c && c <= 122 {
        (c - 87) as u64
    } else if 65 <= c && c <= 90 {
        (c - 55) as u64
    } else {
        radix
    };
    if v < radix {
        Some(v)
    } else {
        None
    }
}

/// Reads `s[start..]` as an unsigned integer no larger than `max`.
fn parse_from(s: &[u8], start: usize, radix: u64, max: u64) -> (r: Option<u64>)
    requires
        start <= s@.len(),
        2 <= radix <= 36,
    ensures
        r matches Some(v) ==> parse_unsigned(s@.subrange(start as int, s@.len() as int), radix as nat, max as nat) == Some(v as nat),
        r is None ==> parse_unsigned(s@.subrange(start as int, s@.len() as int), radix as nat, max as nat) is None,
{
    let ghost full = s@.subrange(start as int, s@.len() as int);
    let mut i: usize = start;
    if i < s.len() && s[i] == 43u8 {
        i = i + 1;
    }
    let ghost body = s@.subrange(i as int, s@.len() as int);
    assert(body =~= (if full.len() > 0 && full[0] == 43 { full.drop_first() } else { full }));
    if i == s.len() {
        return None;
    }
    let first = i;
    let mut acc: u64 = 0;
    assert(s@.subrange(first as int, first as int) =~= Seq::<u8>::empty());
    while i < s.len()
        invariant
            first <= i <= s@.len(),
            first < s@.len(),
            2 <= radix <= 36,
            body == s@.subrange(first as int, s@.len() as int),
            full == s@.subrange(start as int, s@.len() as int),
            body == (if full.len() > 0 && full[0] == 43 { full.drop_first() } else { full }),
            digits_value(s@.subrange(first as int, i as int), radix as nat) == Some(acc as nat),
            acc <= max,
        decreases s@.len() - i,
    {
        let ghost pre = s@.subrange(first as int, i as int);
        let ghost ext = s@.subrange(first as int, i + 1);
        assert(ext.drop_last() =~= pre);
        assert(body.subrange(0, (i - first) as int) =~= pre);
        assert(body.subrange(0, (i + 1 - first) as int) =~= ext);
        match digit_of(s[i], radix) {
            None => {
                proof {
                    lemma_overflow_stays(body, (i + 1 - first) as int, radix as nat, max as nat);
                }
                return None;
            },
            Some(d) => {
                proof {
                    lemma_digit_bound(s[i as int], radix as nat);
                }
                if d > max || acc > (max - d) / radix {
                    proof {
                        let (a, r, dd, m) = (acc as int, radix as int, d as int, max as int);
                        if dd <= m {
                            assert(a * r + dd > m) by (nonlinear_arith)
                                requires a > (m - dd) / r, r >= 2, 0 <= dd <= m;
                        } else {
                            assert(a * r + dd > m) by (nonlinear_arith)
                                requires a >= 0, r >= 2, dd > m;
                        }
                        lemma_overflow_stays(body, (i + 1 - first) as int, radix as nat, max as nat);
                    }
                    return None;
                }
                proof {
                    let (a, r, dd, m) = (acc as int, radix as int, d as int, max as int);
                    assert(a * r + dd <= m) by (nonlinear_arith)
                        requires 0 <= a <= (m - dd) / r, r >= 2, 0 <= dd <= m;
                }
                acc = acc * radix + d;
            },
        }
        i = i + 1;
    }
    assert(s@.subrange(first as int, i as int) =~= body);
    Some(acc)
}

/// Reads a file offset: hexadecimal after a `0x` prefix, decimal otherwise.
pub fn parse_offset(s: &str) -> (r: Result<u64, OffsetError>)
    ensures
        has_hex_prefix(s.spec_bytes()) ==> match parse_unsigned(s.spec_bytes().subrange(2, s.spec_bytes().len() as int), 16, u64::MAX as nat) {
            Some(v) => r == Ok::<u64, OffsetError>(v as u64),
            None => r == Err::<u64, OffsetError>(OffsetError::InvalidHex),
        },
        !has_hex_prefix(s.spec_bytes()) ==> match parse_unsigned(s.spec_bytes(), 10, u64::MAX as nat) {
            Some(v) => r == Ok::<u64, OffsetError>(v as u64),
            None => r == Err::<u64, OffsetError>(OffsetError::InvalidDecimal),
        },
{
    let b = s.as_bytes();
    if b.len() >= 2 && b[0] == 48u8 && b[1] == 120u8 {
        match parse_from(b, 2, 16, u64::MAX) {
            Some(v) => Ok(v),
            None => Err(OffsetError::InvalidHex),
        }
    } else {
        assert(b@.subrange(0, b@.len() as int) =~= b@);
        match parse_from(b, 0, 10, u64::MAX) {
            Some(v) => Ok(v),
            None => Err(OffsetError::InvalidDecimal),
        }
    }
}

/// Turns a hexadecimal string into bytes, two characters per byte.
pub fn hex_to_bytes(s: &str) -> (r: Result<Vec<u8>, HexError>)
    ensures
        s.spec_bytes().len() % 2 == 1 ==> r == Err::<Vec<u8>, HexError>(HexError::OddLength),
        s.spec_bytes().len() % 2 == 0 && !all_pairs_valid(s.spec_bytes())
            ==> r == Err::<Vec<u8>, HexError>(HexError::InvalidByte),
        s.spec_bytes().len() % 2 == 0 && all_pairs_valid(s.spec_bytes()) ==> (r matches Ok(v) && {
            &&& v@.len() == s.spec_bytes().len() / 2
            &&& forall|i: int| 0 <= i < v@.len() ==> pair_value(s.spec_bytes(), i) == Some(#[trigger] v@[i] as nat)
        }),
{
    let b = s.as_bytes();
    if b.len() % 2 != 0 {
        return Err(HexError::OddLength);
    }
    let mut out: Vec<u8> = Vec::new();
    let mut i: usize = 0;
    while i < b.len() / 2
        invariant
            b@ == s.spec_bytes(),
            b@.len() % 2 == 0,
            i <= b@.len() / 2,
            out@.len() == i,
            forall|j: int| 0 <= j < i ==> pair_value(b@, j) == Some(#[trigger] out@[j] as nat),
        decreases b@.len() / 2 - i,
    {
        let pair = vec![b[2 * i], b[2 * i + 1]];
        assert(pair@ =~= b@.subrange(2 * i as int, 2 * i + 2));
        assert(pair@.subrange(0, pair@.len() as int) =~= pair@);
        match parse_from(pair.as_slice(), 0, 16, 255) {
            Some(v) => {
                out.push(v as u8);
            },
            None => {
                assert(pair_value(b@, i as int) is None);
                assert(!all_pairs_valid(s.spec_bytes()));
                return Err(HexError::InvalidByte);
            },
        }
        i = i + 1;
    }
    assert(all_pairs_valid(s.spec_bytes())) by {
        assert forall|j: int| 0 <= j < b@.len() / 2 implies (#[trigger] pair_value(b@, j)).is_some() by {
            assert(pair_value(b@, j) == Some(out@[j] as nat));
        }
    }
    Ok(out)
}

/// The byte as a printable ASCII character, or `.` where it is not one.
pub fn ascii_or_dot(b: u8) -> (r: char)
    ensures
        r == (if 0x20 <= b <= 0x7E { b as char } else { '.' }),
{
    if 0x20 <= b && b <= 0x7E {
        b as char
    } else {
        '.'
    }
}

} // verus!
