//! De-obfuscation of container files: every byte is XORed with the
//! little-endian bytes of a 32-bit key, taken cyclically.

use vstd::prelude::*;

verus! {

/// Why a buffer could not be de-obfuscated.
#[derive(Debug, Clone, Copy, PartialEq, Eq, Structural)]
pub enum DecryptError {
    /// The buffer is shorter than one key cycle; it holds the buffer's length.
    TooSmall(usize),
}

/// The four bytes of `key`, least significant first.
pub open spec fn key_bytes(key: u32) -> Seq<u8> {
    seq![
        (key & 0xff) as u8,
        ((key >> 8u32) & 0xff) as u8,
        ((key >> 16u32) & 0xff) as u8,
        ((key >> 24u32) & 0xff) as u8,
    ]
}

/// `src` with byte `i` XORed with byte `i % 4` of the key.
pub open spec fn xor_cycle(src: Seq<u8>, key: u32) -> Seq<u8> {
    Seq::new(src.len(), |i: int| src[i] ^ key_bytes(key)[i % 4])
}

/// XORs `src` with the cycling little-endian bytes of `key`.
///
/// Buffers shorter than four bytes are refused with `TooSmall`.
pub fn decrpyt(src: &[u8], key: u32) -> (r: Result<Vec<u8>, DecryptError>)
    ensures
        src@.len() < 4 <==> r is Err,
        r is Err ==> r == Err::<Vec<u8>, DecryptError>(DecryptError::TooSmall(src@.len() as usize)),
        r is Ok ==> r->Ok_0@ == xor_cycle(src@, key),
{
    if src.len() < 4 {
        return Err(DecryptError::TooSmall(src.len()));
    }
    let kb: [u8; 4] = [
        (key & 0xff) as u8,
        ((key >> 8u32) & 0xff) as u8,
        ((key >> 16u32) & 0xff) as u8,
        ((key >> 24u32) & 0xff) as u8,
    ];
    assert(kb@ == key_bytes(key));
    let mut out: Vec<u8> = Vec::with_capacity(src.len());
    let mut i: usize = 0;
    while i < src.len()
        invariant
            i <= src@.len(),
            kb@ == key_bytes(key),
            out@ == xor_cycle(src@, key).subrange(0, i as int),
        decreases src@.len() - i,
    {
        out.push(src[i] ^ kb[i % 4]);
        i = i + 1;
        assert(out@ =~= xor_cycle(src@, key).subrange(0, i as int));
    }
    assert(out@ =~= xor_cycle(src@, key));
    Ok(out)
}

/// De-obfuscating twice with the same key gives back the original bytes.
pub proof fn lemma_decrypt_involution(buf: Seq<u8>, key: u32)
    ensures
        xor_cycle(xor_cycle(buf, key), key) == buf,
{
    assert forall|i: int| 0 <= i < buf.len() implies #[trigger] xor_cycle(
        xor_cycle(buf, key),
        key,
    )[i] == buf[i] by {
        let x = buf[i];
        let k = key_bytes(key)[i % 4];
        assert((x ^ k) ^ k == x) by (bit_vector);
    }
    assert(xor_cycle(xor_cycle(buf, key), key) =~= buf);
}

} // verus!
