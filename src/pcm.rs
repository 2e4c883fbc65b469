//! 16-bit PCM helpers: copying sample slices and little-endian byte encoding.
use vstd::prelude::*;

verus! {

/// A fresh vector holding the same samples as `s`.
pub fn copy_samples(s: &[i16]) -> (r: Vec<i16>)
    ensures
        r@ == s@,
{
    let mut v: Vec<i16> = Vec::with_capacity(s.len());
    let mut i: usize = 0;
    while i < s.len()
        invariant
            i <= s@.len(),
            v@ == s@.subrange(0, i as int),
        decreases s@.len() - i,
    {
        v.push(s[i]);
        i = i + 1;
    }
    assert(v@ =~= s@);
    v
}

/// The two's-complement bit pattern of a sample.
pub open spec fn bits(x: i16) -> int {
    if x < 0 {
        x + 65536
    } else {
        x as int
    }
}

/// Little-endian encoding: sample `j` becomes bytes `2j` (low) and `2j + 1` (high).
pub open spec fn is_le_encoding(samples: Seq<i16>, bytes: Seq<u8>) -> bool {
    &&& bytes.len() == 2 * samples.len()
    &&& forall|j: int|
        0 <= j < samples.len() ==> {
            &&& #[trigger] bytes[2 * j] == bits(samples[j]) % 256
            &&& bytes[2 * j + 1] == bits(samples[j]) / 256
        }
}

/// Encodes a frame as little-endian 16-bit PCM bytes.
pub fn encode_pcm16_le(samples: &[i16]) -> (r: Vec<u8>)
    requires
        samples@.len() * 2 <= usize::MAX,
    ensures
        is_le_encoding(samples@, r@),
{
    let mut out: Vec<u8> = Vec::with_capacity(samples.len() * 2);
    let mut i: usize = 0;
    while i < samples.len()
        invariant
            i <= samples@.len(),
            out@.len() == 2 * i,
            forall|j: int|
                0 <= j < i ==> {
                    &&& #[trigger] out@[2 * j] == bits(samples@[j]) % 256
                    &&& out@[2 * j + 1] == bits(samples@[j]) / 256
                },
        decreases samples@.len() - i,
    {
        let x: i16 = samples[i];
        let u: u32 = if x < 0 {
            (x as i32 + 65536) as u32
        } else {
            x as u32
        };
        out.push((u % 256) as u8);
        out.push((u / 256) as u8);
        i = i + 1;
    }
    out
}

} // verus!
