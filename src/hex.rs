//! Upper-case hexadecimal renderings of integers and byte strings, as shown
//! on the console during a session.

use vstd::prelude::*;

verus! {

/// The upper-case hexadecimal digit of a nibble.
pub open spec fn hex_digit(n: u8) -> char
    recommends
        n < 16,
{
    if n < 10 {
        ((n + 48) as u8) as char
    } else {
        ((n + 55) as u8) as char
    }
}

/// Nibble `i` of `v`, counting from the most significant.
pub open spec fn nibble_u64(v: u64, i: int) -> u8 {
    ((v >> ((60 - 4 * i) as u64)) & 0xFu64) as u8
}

/// The 16 digits of `v`, zero-padded.
pub open spec fn hex_u64_spec(v: u64) -> Seq<char> {
    Seq::new(16, |i: int| hex_digit(nibble_u64(v, i)))
}

/// The two digits of a byte.
pub open spec fn hex_byte_spec(b: u8) -> Seq<char> {
    seq![hex_digit(b / 16), hex_digit(b % 16)]
}

/// The bytes of `s` as two-digit groups separated by single spaces.
pub open spec fn hex_bytes_spec(s: Seq<u8>) -> Seq<char>
    decreases s.len(),
{
    if s.len() == 0 {
        Seq::empty()
    } else if s.len() == 1 {
        hex_byte_spec(s[0])
    } else {
        hex_bytes_spec(s.drop_last()) + seq![' '] + hex_byte_spec(s.last())
    }
}

/// Relies on String's FromIterator<&char>: the string holds exactly the
/// characters collected, in order.
#[verifier::external_body]
fn string_of_chars(cs: &Vec<char>) -> (r: String)
    ensures
        r@ == cs@,
{
    cs.iter().collect()
}

/// The hexadecimal digit of a nibble.
pub fn hex_digit_of(n: u8) -> (r: char)
    requires
        n < 16,
    ensures
        r == hex_digit(n),
{
    if n < 10 {
        (n + 48) as char
    } else {
        (n + 55) as char
    }
}

fn push_byte(out: &mut Vec<char>, b: u8)
    ensures
        final(out)@ == old(out)@ + hex_byte_spec(b),
{
    out.push(hex_digit_of(b / 16));
    out.push(hex_digit_of(b % 16));
    assert(final(out)@ =~= old(out)@ + hex_byte_spec(b));
}

/// `v` as 16 upper-case hexadecimal digits, zero-padded.
pub fn hex_u64(v: u64) -> (r: String)
    ensures
        r@ == hex_u64_spec(v),
{
    let mut out: Vec<char> = Vec::new();
    let mut i: u64 = 0;
    while i < 16
        invariant
            i <= 16,
            out@ == hex_u64_spec(v).subrange(0, i as int),
        decreases 16 - i,
    {
        let sh: u64 = 60 - 4 * i;
        let x: u64 = (v >> sh) & 0xFu64;
        assert(x < 16) by (bit_vector)
            requires x == (v >> sh) & 0xFu64;
        let n = x as u8;
        out.push(hex_digit_of(n));
        i = i + 1;
        assert(out@ =~= hex_u64_spec(v).subrange(0, i as int));
    }
    assert(out@ =~= hex_u64_spec(v));
    string_of_chars(&out)
}

/// The bytes as two-digit upper-case hexadecimal groups separated by spaces.
pub fn hex_bytes(bytes: &[u8]) -> (r: String)
    ensures
        r@ == hex_bytes_spec(bytes@),
{
    let mut out: Vec<char> = Vec::new();
    let mut i: usize = 0;
    while i < bytes.len()
        invariant
            i <= bytes@.len(),
            out@ == hex_bytes_spec(bytes@.subrange(0, i as int)),
        decreases bytes@.len() - i,
    {
        let ghost prev = bytes@.subrange(0, i as int);
        let ghost next = bytes@.subrange(0, i + 1);
        assert(next.drop_last() =~= prev);
        if i > 0 {
            out.push(' ');
        }
        push_byte(&mut out, bytes[i]);
        i = i + 1;
        proof {
            if i == 1 {
                assert(prev.len() == 0);
                assert(out@ =~= hex_bytes_spec(next));
            } else {
                assert(out@ =~= hex_bytes_spec(next));
            }
        }
    }
    assert(bytes@.subrange(0, i as int) =~= bytes@);
    string_of_chars(&out)
}

} // verus!
