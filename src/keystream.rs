//! The keystream: a 32-bit linear congruential generator seeded from the
//! shared secret, emitting the top byte of each new state.

use vstd::prelude::*;

verus! {

/// Multiplier of the generator.
pub const LCG_MUL: u32 = 1103515245;

/// Increment of the generator.
pub const LCG_INC: u32 = 12345;

/// The seed drawn from a 64-bit secret: its low and high halves XORed.
pub open spec fn seed_of(secret: u64) -> u32 {
    (secret as u32) ^ ((secret >> 32u64) as u32)
}

/// One generator step: `state * a + c mod 2^32`.
pub open spec fn lcg_next(state: u32) -> u32 {
    ((state as int * LCG_MUL as int + LCG_INC as int) % 0x1_0000_0000) as u32
}

/// The byte emitted for a new state: its bits 31..24.
pub open spec fn byte_of(state: u32) -> u8 {
    (state / 0x100_0000) as u8
}

/// The state after `n` steps from `state`.
pub open spec fn advance(state: u32, n: nat) -> u32
    decreases n,
{
    if n == 0 {
        state
    } else {
        advance(lcg_next(state), (n - 1) as nat)
    }
}

/// The first `n` keystream bytes emitted from `state`.
pub open spec fn stream_from(state: u32, n: nat) -> Seq<u8>
    decreases n,
{
    if n == 0 {
        Seq::empty()
    } else {
        seq![byte_of(lcg_next(state))] + stream_from(lcg_next(state), (n - 1) as nat)
    }
}

/// `data` XORed byte by byte with `key`, which is at least as long.
pub open spec fn xor_seq(data: Seq<u8>, key: Seq<u8>) -> Seq<u8> {
    Seq::new(data.len(), |i: int| data[i] ^ key[i])
}

/// A keystream generator; it is consumed destructively and never rewinds.
pub struct Keystream {
    pub state: u32,
}

impl Keystream {
    /// Starts a generator from a shared secret.
    pub fn from_secret(secret: u64) -> (r: Keystream)
        ensures
            r.state == seed_of(secret),
    {
        let s = (secret as u32) ^ ((secret >> 32u64) as u32);
        Keystream { state: s }
    }

    /// Advances one step and returns the new state.
    pub fn next_u32(&mut self) -> (r: u32)
        ensures
            final(self).state == lcg_next(old(self).state),
            r == final(self).state,
    {
        self.state = self.state.wrapping_mul(LCG_MUL).wrapping_add(LCG_INC);
        proof {
            let s = old(self).state as int;
            assert((((s * LCG_MUL as int) % 0x1_0000_0000) + LCG_INC as int) % 0x1_0000_0000
                == (s * LCG_MUL as int + LCG_INC as int) % 0x1_0000_0000) by (nonlinear_arith);
        }
        self.state
    }

    /// Advances one step and returns the keystream byte of the new state.
    pub fn next_byte(&mut self) -> (r: u8)
        ensures
            final(self).state == lcg_next(old(self).state),
            r == byte_of(final(self).state),
            seq![r] == stream_from(old(self).state, 1),
    {
        let s = self.next_u32();
        proof {
            assert(s >> 24u32 == s / 0x100_0000) by (bit_vector);
            assert(stream_from(lcg_next(old(self).state), 0) == Seq::<u8>::empty());
        }
        (s >> 24u32) as u8
    }

    /// XORs `data` with the next `data.len()` keystream bytes; applied to
    /// plaintext it encrypts, applied to ciphertext it decrypts.
    pub fn xor_bytes(&mut self, data: &[u8]) -> (r: Vec<u8>)
        ensures
            r@ == xor_seq(data@, stream_from(old(self).state, data@.len())),
            final(self).state == advance(old(self).state, data@.len()),
    {
        let mut out: Vec<u8> = Vec::new();
        let mut i: usize = 0;
        while i < data.len()
            invariant
                i <= data@.len(),
                out@ == xor_seq(data@.subrange(0, i as int), stream_from(old(self).state, i as nat)),
                self.state == advance(old(self).state, i as nat),
            decreases data@.len() - i,
        {
            let ghost before = self.state;
            let k = self.next_byte();
            proof {
                lemma_stream_split(old(self).state, i as nat, 1);
                lemma_advance_split(old(self).state, i as nat, 1);
                lemma_advance_one(before);
                lemma_stream_len(old(self).state, i as nat);
            }
            out.push(data[i] ^ k);
            i = i + 1;
            assert(out@ =~= xor_seq(data@.subrange(0, i as int), stream_from(old(self).state, i as nat)));
        }
        assert(data@.subrange(0, i as int) =~= data@);
        out
    }

    /// Emits the next `n` keystream bytes.
    pub fn preview_bytes(&mut self, n: usize) -> (r: Vec<u8>)
        ensures
            r@ == stream_from(old(self).state, n as nat),
            final(self).state == advance(old(self).state, n as nat),
    {
        let mut out: Vec<u8> = Vec::new();
        let mut i: usize = 0;
        while i < n
            invariant
                i <= n,
                out@ == stream_from(old(self).state, i as nat),
                self.state == advance(old(self).state, i as nat),
            decreases n - i,
        {
            let ghost before = self.state;
            let k = self.next_byte();
            proof {
                lemma_stream_split(old(self).state, i as nat, 1);
                lemma_advance_split(old(self).state, i as nat, 1);
                lemma_advance_one(before);
            }
            out.push(k);
            i = i + 1;
        }
        out
    }
}

proof fn lemma_advance_one(state: u32)
    ensures
        advance(state, 1) == lcg_next(state),
{
    assert(advance(lcg_next(state), 0) == lcg_next(state));
}

/// Taking `m` steps and then `n` more is taking `m + n` steps.
pub proof fn lemma_advance_split(state: u32, m: nat, n: nat)
    ensures
        advance(state, m + n) == advance(advance(state, m), n),
    decreases m,
{
    if m > 0 {
        lemma_advance_split(lcg_next(state), (m - 1) as nat, n);
        assert((m + n - 1) as nat == (m - 1) as nat + n);
    }
}

/// Drawing `m + n` bytes at once yields the same bytes as drawing `m` and
/// then `n` more from where the first draw left off, so a generator threaded
/// through several calls stays aligned with one that is read in one go.
pub proof fn lemma_stream_split(state: u32, m: nat, n: nat)
    ensures
        stream_from(state, m + n) == stream_from(state, m) + stream_from(advance(state, m), n),
    decreases m,
{
    if m == 0 {
        assert(stream_from(state, 0) + stream_from(state, n) =~= stream_from(state, n));
    } else {
        let s1 = lcg_next(state);
        lemma_stream_split(s1, (m - 1) as nat, n);
        assert((m + n - 1) as nat == (m - 1) as nat + n);
        assert(seq![byte_of(s1)] + (stream_from(s1, (m - 1) as nat) + stream_from(advance(s1, (m - 1) as nat), n))
            =~= (seq![byte_of(s1)] + stream_from(s1, (m - 1) as nat)) + stream_from(advance(s1, (m - 1) as nat), n));
    }
}

/// The keystream holds exactly the bytes requested.
pub proof fn lemma_stream_len(state: u32, n: nat)
    ensures
        stream_from(state, n).len() == n,
    decreases n,
{
    if n > 0 {
        lemma_stream_len(lcg_next(state), (n - 1) as nat);
    }
}

/// Two generators started from the same secret emit the same bytes, for
/// every number of bytes requested.
pub proof fn lemma_keystream_determinism(s1: u64, s2: u64, n: nat)
    requires
        s1 == s2,
    ensures
        stream_from(seed_of(s1), n) == stream_from(seed_of(s2), n),
        advance(seed_of(s1), n) == advance(seed_of(s2), n),
{
}

/// XOR with the keystream is self-inverse: encrypting a message and then
/// XORing the result with a fresh generator from the same seed gives the
/// message back.
pub proof fn lemma_xor_round_trip(m: Seq<u8>, secret: u64)
    ensures
        xor_seq(
            xor_seq(m, stream_from(seed_of(secret), m.len())),
            stream_from(seed_of(secret), m.len()),
        ) == m,
{
    let k = stream_from(seed_of(secret), m.len());
    lemma_stream_len(seed_of(secret), m.len());
    assert forall|i: int| 0 <= i < m.len() implies #[trigger] m[i] ^ k[i] ^ k[i] == m[i] by {
        let a = m[i];
        let b = k[i];
        assert(a ^ b ^ b == a) by (bit_vector);
    }
    assert(xor_seq(xor_seq(m, k), k) =~= m);
}

} // verus!
