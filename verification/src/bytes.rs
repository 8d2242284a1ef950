use vstd::prelude::*;

verus! {

/// Encode a 64-bit integer as 8 little-endian bytes.
pub open spec fn u64_le_bytes(x: u64) -> Seq<u8> {
    seq![
        (x & 0xff) as u8,
        ((x >> 8) & 0xff) as u8,
        ((x >> 16) & 0xff) as u8,
        ((x >> 24) & 0xff) as u8,
        ((x >> 32) & 0xff) as u8,
        ((x >> 40) & 0xff) as u8,
        ((x >> 48) & 0xff) as u8,
        ((x >> 56) & 0xff) as u8,
    ]
}

/// Little-endian encoding of a 64-bit integer.
pub fn encode_u64_le(x: u64) -> (r: Vec<u8>)
    ensures
        r@ == u64_le_bytes(x),
{
    let mut out: Vec<u8> = Vec::new();
    out.push((x & 0xff) as u8);
    out.push(((x >> 8) & 0xff) as u8);
    out.push(((x >> 16) & 0xff) as u8);
    out.push(((x >> 24) & 0xff) as u8);
    out.push(((x >> 32) & 0xff) as u8);
    out.push(((x >> 40) & 0xff) as u8);
    out.push(((x >> 48) & 0xff) as u8);
    out.push(((x >> 56) & 0xff) as u8);
    proof {
        assert(out@ =~= u64_le_bytes(x));
    }
    out
}

/// A sequence of 32 zero bytes: the all-zero chunk of the hash tree.
pub open spec fn zero_chunk() -> Seq<u8> {
    Seq::new(32, |i: int| 0u8)
}

/// The 32-byte all-zero chunk.
pub fn make_zero_chunk() -> (r: Vec<u8>)
    ensures
        r@ == zero_chunk(),
{
    let mut out: Vec<u8> = Vec::new();
    let mut i: usize = 0;
    while i < 32
        invariant
            i <= 32,
            out@.len() == i,
            forall|j: int| 0 <= j < i ==> out@[j] == 0u8,
        decreases 32 - i,
    {
        out.push(0u8);
        i += 1;
    }
    proof {
        assert(out@ =~= zero_chunk());
    }
    out
}

/// The `i`-th 32-byte chunk of `s`, zero-padded at the end where `s` runs out.
pub open spec fn chunk32(s: Seq<u8>, i: int) -> Seq<u8> {
    Seq::new(32, |j: int| if 32 * i + j < s.len() { s[32 * i + j] } else { 0u8 })
}

/// Extract the `i`-th 32-byte chunk of `bytes`, zero-padded past the end.
pub fn take_chunk32(bytes: &Vec<u8>, i: usize) -> (r: Vec<u8>)
    requires
        32 * (i as int) + 32 <= usize::MAX,
    ensures
        r@ == chunk32(bytes@, i as int),
{
    let mut out: Vec<u8> = Vec::new();
    let mut j: usize = 0;
    while j < 32
        invariant
            j <= 32,
            out@.len() == j,
            32 * (i as int) + 32 <= usize::MAX,
            forall|k: int| 0 <= k < j ==> out@[k] == chunk32(bytes@, i as int)[k],
        decreases 32 - j,
    {
        let off: usize = 32 * i + j;
        if off < bytes.len() {
            out.push(bytes[off]);
        } else {
            out.push(0u8);
        }
        j += 1;
    }
    proof {
        assert(out@ =~= chunk32(bytes@, i as int));
    }
    out
}

/// Byte-for-byte equality of two byte vectors.
pub fn bytes_eq(a: &Vec<u8>, b: &Vec<u8>) -> (r: bool)
    ensures
        r == (a@ == b@),
{
    if a.len() != b.len() {
        proof {
            assert(a@.len() != b@.len());
        }
        return false;
    }
    let mut i: usize = 0;
    while i < a.len()
        invariant
            i <= a.len(),
            a@.len() == b@.len(),
            forall|j: int| 0 <= j < i ==> a@[j] == b@[j],
        decreases a.len() - i,
    {
        if a[i] != b[i] {
            return false;
        }
        i += 1;
    }
    proof {
        assert(a@ =~= b@);
    }
    true
}

} // verus!
