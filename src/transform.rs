//! The payload transform: every byte is shifted by the same amount, modulo 256.

use vstd::prelude::*;

verus! {

/// Whether a chunk is being obfuscated (shift added) or restored (shift subtracted).
#[derive(Clone, Copy, Debug, PartialEq, Eq, Structural)]
pub enum Direction {
    Encode,
    Decode,
}

/// One byte after the transform, with 8-bit wraparound.
pub open spec fn shift_byte(b: u8, s: u8, d: Direction) -> u8 {
    match d {
        Direction::Encode => ((b + s) % 256) as u8,
        Direction::Decode => ((b - s + 256) % 256) as u8,
    }
}

/// A whole sequence after the transform, byte by byte.
pub open spec fn transformed(buf: Seq<u8>, s: u8, d: Direction) -> Seq<u8> {
    Seq::new(buf.len(), |i: int| shift_byte(buf[i], s, d))
}

/// Adds (`Encode`) or subtracts (`Decode`) `shift` to every byte of `buf`, in place.
pub fn transform_chunk(buf: &mut [u8], shift: u8, direction: Direction)
    ensures
        final(buf)@ == transformed(old(buf)@, shift, direction),
{
    let n = buf.len();
    let mut i: usize = 0;
    while i < n
        invariant
            n == buf@.len(),
            n == old(buf)@.len(),
            i <= n,
            forall|j: int| 0 <= j < i ==> buf@[j] == shift_byte(old(buf)@[j], shift, direction),
            forall|j: int| i <= j < n ==> buf@[j] == old(buf)@[j],
        decreases n - i,
    {
        let b = buf[i];
        let v = match direction {
            Direction::Encode => b.wrapping_add(shift),
            Direction::Decode => b.wrapping_sub(shift),
        };
        buf[i] = v;
        i = i + 1;
    }
    assert(buf@ =~= transformed(old(buf)@, shift, direction));
}

/// Decoding with the shift that encoded a sequence gives the sequence back.
pub proof fn lemma_decode_inverts_encode(b: Seq<u8>, s: u8)
    ensures
        transformed(transformed(b, s, Direction::Encode), s, Direction::Decode) == b,
{
    let e = transformed(b, s, Direction::Encode);
    assert(transformed(e, s, Direction::Decode) =~= b);
}

/// Transforming a sequence chunk by chunk gives the transform of the whole.
pub proof fn lemma_transform_concat(a: Seq<u8>, b: Seq<u8>, s: u8, d: Direction)
    ensures
        transformed(a + b, s, d) == transformed(a, s, d) + transformed(b, s, d),
{
    assert(transformed(a + b, s, d) =~= transformed(a, s, d) + transformed(b, s, d));
}

} // verus!
