use vstd::prelude::*;

verus! {

/// Byte `i` of the deterministic test image: the pattern 1, 2, 3, 4 repeated.
pub open spec fn pattern_byte(i: int) -> u8 {
    (i % 4 + 1) as u8
}

/// `len` bytes of the repeating pattern 1, 2, 3, 4, for filling a texture whose readback can
/// be compared byte for byte.
pub fn pattern_bytes(len: usize) -> (r: Vec<u8>)
    ensures
        r@.len() == len,
        forall|i: int| 0 <= i < len ==> #[trigger] r@[i] == pattern_byte(i),
{
    let mut out: Vec<u8> = Vec::new();
    let mut i: usize = 0;
    while i < len
        invariant
            i <= len,
            out@.len() == i,
            forall|j: int| 0 <= j < i ==> #[trigger] out@[j] == pattern_byte(j),
        decreases len - i,
    {
        out.push((i % 4) as u8 + 1);
        i = i + 1;
    }
    out
}

/// The first `len` bytes that a ChaCha8 generator seeded with `seed` produces.
pub uninterp spec fn chacha8_bytes(seed: u64, len: nat) -> Seq<u8>;

/// Relies on rand_chacha::ChaCha8Rng, built by rand_core's `SeedableRng::seed_from_u64` and read
/// by `RngCore::fill_bytes`: `len` bytes of the generator's stream, which fill the whole buffer
/// and which rand_core documents as reproducible for a given seed on every run and machine.
#[verifier::external_body]
fn chacha8_fill(seed: u64, len: usize) -> (r: Vec<u8>)
    ensures
        r@ == chacha8_bytes(seed, len as nat),
        r@.len() == len,
{
    let mut rng = <rand_chacha::ChaCha8Rng as rand::SeedableRng>::seed_from_u64(seed);
    let mut buf = vec![0u8; len];
    rand::RngCore::fill_bytes(&mut rng, &mut buf);
    buf
}

/// Noise for a `width` by `height` texture at four bytes per pixel, drawn from a generator
/// seeded with `seed`, so that one seed always gives the same image; `None` when the image
/// would not fit in memory addressable by `usize`.
pub fn seeded_texture_bytes(seed: u64, width: u32, height: u32) -> (r: Option<Vec<u8>>)
    ensures
        r is None <==> width * height * 4 > usize::MAX,
        r matches Some(v) ==> v@ == chacha8_bytes(seed, (width * height * 4) as nat) && v@.len() == width
            * height * 4,
{
    assert(width * height <= u32::MAX * u32::MAX) by (nonlinear_arith)
        requires width <= u32::MAX, height <= u32::MAX;
    let pixels: u64 = width as u64 * height as u64;
    if pixels > usize::MAX as u64 / 4 {
        return None;
    }
    let len: usize = pixels as usize * 4;
    Some(chacha8_fill(seed, len))
}

} // verus!
