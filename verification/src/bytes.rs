//! Little-endian byte-string values and small executable byte helpers that
//! the encodings of the protocol are stated over.

use vstd::prelude::*;

verus! {

/// The value of a byte string read as a little-endian integer.
pub open spec fn le_val(s: Seq<u8>) -> nat
    decreases s.len(),
{
    if s.len() == 0 {
        0
    } else {
        (s[0] + 256 * le_val(s.skip(1))) as nat
    }
}

/// Two byte strings of equal length with the same little-endian value are equal.
pub proof fn lemma_le_val_injective(a: Seq<u8>, b: Seq<u8>)
    requires
        a.len() == b.len(),
        le_val(a) == le_val(b),
    ensures
        a =~= b,
    decreases a.len(),
{
    if a.len() == 0 {
    } else {
        assert(le_val(a) == a[0] + 256 * le_val(a.skip(1)));
        assert(le_val(b) == b[0] + 256 * le_val(b.skip(1)));
        assert(a[0] == le_val(a) % 256 && le_val(a.skip(1)) == le_val(a) / 256) by (nonlinear_arith)
            requires
                le_val(a) == a[0] + 256 * le_val(a.skip(1)),
                0 <= a[0] < 256,
        ;
        assert(b[0] == le_val(b) % 256 && le_val(b.skip(1)) == le_val(b) / 256) by (nonlinear_arith)
            requires
                le_val(b) == b[0] + 256 * le_val(b.skip(1)),
                0 <= b[0] < 256,
        ;
        lemma_le_val_injective(a.skip(1), b.skip(1));
        assert(a =~= b) by {
            assert(forall|i: int| 1 <= i < a.len() ==> a[i] == a.skip(1)[i - 1]);
        }
    }
}

/// Compare two 32-byte strings.
pub fn bytes32_eq(a: &[u8; 32], b: &[u8; 32]) -> (r: bool)
    ensures
        r <==> a@ =~= b@,
{
    let mut i: usize = 0;
    while i < 32
        invariant
            0 <= i <= 32,
            forall|j: int| 0 <= j < i ==> a@[j] == b@[j],
        decreases 32 - i,
    {
        if a[i] != b[i] {
            return false;
        }
        i = i + 1;
    }
    true
}

/// Append a 32-byte string to a growing byte vector.
pub fn push_bytes32(out: &mut Vec<u8>, b: &[u8; 32])
    ensures
        final(out)@ == old(out)@ + b@,
{
    let s: &[u8] = b.as_slice();
    out.extend_from_slice(s);
    proof {
        assert(out@ =~= old(out)@ + b@);
    }
}

/// The four little-endian bytes of a 32-bit integer.
pub open spec fn u32_le(n: u32) -> Seq<u8> {
    seq![
        (n % 256) as u8,
        ((n / 256) % 256) as u8,
        ((n / 0x10000) % 256) as u8,
        ((n / 0x1000000) % 256) as u8,
    ]
}

/// Encode a 32-bit integer as its four little-endian bytes.
pub fn u32_to_le(n: u32) -> (r: [u8; 4])
    ensures
        r@ =~= u32_le(n),
{
    let b0: u8 = (n % 256) as u8;
    let b1: u8 = ((n / 256) % 256) as u8;
    let b2: u8 = ((n / 0x10000) % 256) as u8;
    let b3: u8 = ((n / 0x1000000) % 256) as u8;
    [b0, b1, b2, b3]
}

/// The four big-endian bytes of a 32-bit integer.
pub open spec fn u32_be(n: u32) -> Seq<u8> {
    seq![
        ((n / 0x1000000) % 256) as u8,
        ((n / 0x10000) % 256) as u8,
        ((n / 256) % 256) as u8,
        (n % 256) as u8,
    ]
}

/// Encode a 32-bit integer as its four big-endian bytes.
pub fn u32_to_be(n: u32) -> (r: [u8; 4])
    ensures
        r@ =~= u32_be(n),
{
    let b0: u8 = ((n / 0x1000000) % 256) as u8;
    let b1: u8 = ((n / 0x10000) % 256) as u8;
    let b2: u8 = ((n / 256) % 256) as u8;
    let b3: u8 = (n % 256) as u8;
    [b0, b1, b2, b3]
}

/// The value four big-endian bytes encode.
pub open spec fn u32_of_be(s: Seq<u8>) -> u32 {
    (0x1000000 * s[0] + 0x10000 * s[1] + 256 * s[2] + s[3]) as u32
}

/// Decode four big-endian bytes into a 32-bit integer.
pub fn u32_from_be(b: [u8; 4]) -> (r: u32)
    ensures
        u32_be(r) =~= b@,
        r == u32_of_be(b@),
{
    let r: u32 = (b[3] as u32) + 256 * (b[2] as u32) + 0x10000 * (b[1] as u32) + 0x1000000 * (
    b[0] as u32);
    proof {
        let b0 = b@[0];
        let b1 = b@[1];
        let b2 = b@[2];
        let b3 = b@[3];
        assert(((r / 0x1000000) % 256) == b0 as u32 && ((r / 0x10000) % 256) == b1 as u32 && ((r
            / 256) % 256) == b2 as u32 && (r % 256) == b3 as u32) by (bit_vector)
            requires
                r == (b3 as u32) + 256 * (b2 as u32) + 0x10000 * (b1 as u32) + 0x1000000 * (
                b0 as u32),
        ;
        assert(u32_be(r) =~= b@);
    }
    r
}

/// The eight little-endian bytes of a 64-bit integer.
pub open spec fn u64_le(n: u64) -> Seq<u8> {
    seq![
        (n % 256) as u8,
        ((n / 256) % 256) as u8,
        ((n / 0x10000) % 256) as u8,
        ((n / 0x1000000) % 256) as u8,
        ((n / 0x100000000) % 256) as u8,
        ((n / 0x10000000000) % 256) as u8,
        ((n / 0x1000000000000) % 256) as u8,
        ((n / 0x100000000000000) % 256) as u8,
    ]
}

/// Encode a 64-bit integer as its eight little-endian bytes.
pub fn u64_to_le(n: u64) -> (r: [u8; 8])
    ensures
        r@ =~= u64_le(n),
{
    let b0: u8 = (n % 256) as u8;
    let b1: u8 = ((n / 256) % 256) as u8;
    let b2: u8 = ((n / 0x10000) % 256) as u8;
    let b3: u8 = ((n / 0x1000000) % 256) as u8;
    let b4: u8 = ((n / 0x100000000) % 256) as u8;
    let b5: u8 = ((n / 0x10000000000) % 256) as u8;
    let b6: u8 = ((n / 0x1000000000000) % 256) as u8;
    let b7: u8 = ((n / 0x100000000000000) % 256) as u8;
    [b0, b1, b2, b3, b4, b5, b6, b7]
}

/// Copy 32 bytes out of a vector, starting at `start`.
pub fn take32(v: &Vec<u8>, start: usize) -> (r: [u8; 32])
    requires
        start + 32 <= v.len(),
    ensures
        r@ =~= v@.subrange(start as int, start as int + 32),
{
    let mut r: [u8; 32] = [0; 32];
    let mut i: usize = 0;
    while i < 32
        invariant
            0 <= i <= 32,
            start + 32 <= v.len(),
            forall|j: int| 0 <= j < i ==> r@[j] == v@[start + j],
        decreases 32 - i,
    {
        r[i] = v[start + i];
        i = i + 1;
    }
    r
}

/// Two 32-bit integers with the same big-endian bytes are equal.
pub proof fn lemma_u32_be_inj(a: u32, b: u32)
    requires
        u32_be(a) == u32_be(b),
    ensures
        a == b,
{
    assert(u32_be(a)[0] == u32_be(b)[0]);
    assert(u32_be(a)[1] == u32_be(b)[1]);
    assert(u32_be(a)[2] == u32_be(b)[2]);
    assert(u32_be(a)[3] == u32_be(b)[3]);
    assert((a / 0x1000000) % 256 == (b / 0x1000000) % 256);
    assert((a / 0x10000) % 256 == (b / 0x10000) % 256);
    assert((a / 256) % 256 == (b / 256) % 256);
    assert(a % 256 == b % 256);
    assert(a == b) by (bit_vector)
        requires
            (a / 0x1000000) % 256 == (b / 0x1000000) % 256,
            (a / 0x10000) % 256 == (b / 0x10000) % 256,
            (a / 256) % 256 == (b / 256) % 256,
            a % 256 == b % 256,
    ;
}

/// Encoding a value and reading it back is the identity.
pub proof fn lemma_u32_be_val(w: u32)
    ensures
        u32_of_be(u32_be(w)) == w,
{
    assert(0x1000000 * ((w / 0x1000000) % 256) + 0x10000 * ((w / 0x10000) % 256) + 256 * ((w / 256)
        % 256) + (w % 256) == w) by (bit_vector);
}

/// Two signed 32-bit integers with the same unsigned bit pattern are equal.
pub proof fn lemma_i32_pattern_inj(a: i32, b: i32)
    requires
        a as u32 == b as u32,
    ensures
        a == b,
{
    assert(a == b) by (bit_vector)
        requires
            a as u32 == b as u32,
    ;
}

} // verus!
