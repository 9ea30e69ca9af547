//! Byte-level helpers shared by the wire formats: appending, slicing into arrays,
//! and the big-endian layout of a `u64`.
use vstd::prelude::*;

verus! {

/// The eight bytes of `v`, most significant first.
pub open spec fn u64_be_bytes(v: u64) -> Seq<u8> {
    seq![
        (v >> 56u64) as u8,
        (v >> 48u64) as u8,
        (v >> 40u64) as u8,
        (v >> 32u64) as u8,
        (v >> 24u64) as u8,
        (v >> 16u64) as u8,
        (v >> 8u64) as u8,
        v as u8,
    ]
}

/// The number whose big-endian bytes are the first eight of `s`.
pub open spec fn u64_from_be(s: Seq<u8>) -> u64 {
    ((s[0] as u64) << 56u64) | ((s[1] as u64) << 48u64) | ((s[2] as u64) << 40u64) | ((
    s[3] as u64) << 32u64) | ((s[4] as u64) << 24u64) | ((s[5] as u64) << 16u64) | ((
    s[6] as u64) << 8u64) | (s[7] as u64)
}

/// Reading back the big-endian bytes of a number gives the number.
pub proof fn lemma_u64_be_roundtrip(v: u64)
    ensures
        u64_from_be(u64_be_bytes(v)) == v,
        u64_be_bytes(v).len() == 8,
{
    let b = u64_be_bytes(v);
    let (b0, b1, b2, b3, b4, b5, b6, b7) = (b[0], b[1], b[2], b[3], b[4], b[5], b[6], b[7]);
    assert(b0 == (v >> 56u64) as u8 && b1 == (v >> 48u64) as u8 && b2 == (v >> 40u64) as u8
        && b3 == (v >> 32u64) as u8 && b4 == (v >> 24u64) as u8 && b5 == (v >> 16u64) as u8
        && b6 == (v >> 8u64) as u8 && b7 == v as u8);
    assert(b0 == (v >> 56u64) as u8 && b1 == (v >> 48u64) as u8 && b2 == (v >> 40u64) as u8
        && b3 == (v >> 32u64) as u8 && b4 == (v >> 24u64) as u8 && b5 == (v >> 16u64) as u8
        && b6 == (v >> 8u64) as u8 && b7 == v as u8 ==> ((b0 as u64) << 56u64) | ((b1 as u64)
        << 48u64) | ((b2 as u64) << 40u64) | ((b3 as u64) << 32u64) | ((b4 as u64) << 24u64) | ((
    b5 as u64) << 16u64) | ((b6 as u64) << 8u64) | (b7 as u64) == v) by (bit_vector);
}

/// Eight bytes are the big-endian bytes of the number they spell.
pub proof fn lemma_u64_from_be_roundtrip(s: Seq<u8>)
    requires
        s.len() == 8,
    ensures
        u64_be_bytes(u64_from_be(s)) == s,
{
    let (b0, b1, b2, b3, b4, b5, b6, b7) = (s[0], s[1], s[2], s[3], s[4], s[5], s[6], s[7]);
    let v = u64_from_be(s);
    assert(v == ((b0 as u64) << 56u64) | ((b1 as u64) << 48u64) | ((b2 as u64) << 40u64) | ((
    b3 as u64) << 32u64) | ((b4 as u64) << 24u64) | ((b5 as u64) << 16u64) | ((b6 as u64)
        << 8u64) | (b7 as u64));
    assert(v == ((b0 as u64) << 56u64) | ((b1 as u64) << 48u64) | ((b2 as u64) << 40u64) | ((
    b3 as u64) << 32u64) | ((b4 as u64) << 24u64) | ((b5 as u64) << 16u64) | ((b6 as u64)
        << 8u64) | (b7 as u64) ==> b0 == (v >> 56u64) as u8 && b1 == (v >> 48u64) as u8 && b2 == (v
        >> 40u64) as u8 && b3 == (v >> 32u64) as u8 && b4 == (v >> 24u64) as u8 && b5 == (v
        >> 16u64) as u8 && b6 == (v >> 8u64) as u8 && b7 == v as u8) by (bit_vector);
    assert(u64_be_bytes(v) =~= s);
}

/// The big-endian bytes of `v` (the layout of `u64::to_be_bytes`).
pub fn u64_to_be_bytes(v: u64) -> (out: [u8; 8])
    ensures
        out@ == u64_be_bytes(v),
{
    let out: [u8; 8] = [
        (v >> 56u64) as u8,
        (v >> 48u64) as u8,
        (v >> 40u64) as u8,
        (v >> 32u64) as u8,
        (v >> 24u64) as u8,
        (v >> 16u64) as u8,
        (v >> 8u64) as u8,
        v as u8,
    ];
    assert(out@ =~= u64_be_bytes(v));
    out
}

/// The number spelled big-endian by `data[offset..offset + 8]` (the rule of `u64::from_be_bytes`).
pub fn u64_read_be(data: &[u8], offset: usize) -> (v: u64)
    requires
        offset + 8 <= data@.len(),
    ensures
        v == u64_from_be(data@.subrange(offset as int, offset + 8)),
{
    let ghost s = data@.subrange(offset as int, offset + 8);
    assert(s[0] == data@[offset as int] && s[7] == data@[offset + 7]);
    ((data[offset] as u64) << 56u64) | ((data[offset + 1] as u64) << 48u64) | ((data[offset
        + 2] as u64) << 40u64) | ((data[offset + 3] as u64) << 32u64) | ((data[offset + 4] as u64)
        << 24u64) | ((data[offset + 5] as u64) << 16u64) | ((data[offset + 6] as u64) << 8u64) | (
    data[offset + 7] as u64)
}

/// Appends `src` to `dst`.
pub fn append_bytes(dst: &mut Vec<u8>, src: &[u8])
    ensures
        final(dst)@ == old(dst)@ + src@,
{
    let mut i: usize = 0;
    while i < src.len()
        invariant
            i <= src@.len(),
            dst@ == old(dst)@ + src@.take(i as int),
        decreases src@.len() - i,
    {
        dst.push(src[i]);
        i = i + 1;
        assert(src@.take(i as int) =~= src@.take(i - 1).push(src@[i - 1]));
    }
    assert(src@.take(src@.len() as int) =~= src@);
}

/// Copies `data[offset..offset + 8]` into an array.
pub fn take_8(data: &[u8], offset: usize) -> (out: [u8; 8])
    requires
        offset + 8 <= data@.len(),
    ensures
        out@ == data@.subrange(offset as int, offset + 8),
{
    let mut out: [u8; 8] = [0u8; 8];
    let mut i: usize = 0;
    let len = data.len();
    while i < 8
        invariant
            i <= 8,
            len == data@.len(),
            offset + 8 <= data@.len(),
            forall|j: int| 0 <= j < i ==> out@[j] == data@[offset + j],
        decreases 8 - i,
    {
        out[i] = data[offset + i];
        i = i + 1;
    }
    assert(out@ =~= data@.subrange(offset as int, offset + 8));
    out
}

/// Copies `data[offset..offset + 16]` into an array.
pub fn take_16(data: &[u8], offset: usize) -> (out: [u8; 16])
    requires
        offset + 16 <= data@.len(),
    ensures
        out@ == data@.subrange(offset as int, offset + 16),
{
    let mut out: [u8; 16] = [0u8; 16];
    let mut i: usize = 0;
    let len = data.len();
    while i < 16
        invariant
            i <= 16,
            len == data@.len(),
            offset + 16 <= data@.len(),
            forall|j: int| 0 <= j < i ==> out@[j] == data@[offset + j],
        decreases 16 - i,
    {
        out[i] = data[offset + i];
        i = i + 1;
    }
    assert(out@ =~= data@.subrange(offset as int, offset + 16));
    out
}

/// Copies `data[offset..offset + 24]` into an array.
pub fn take_24(data: &[u8], offset: usize) -> (out: [u8; 24])
    requires
        offset + 24 <= data@.len(),
    ensures
        out@ == data@.subrange(offset as int, offset + 24),
{
    let mut out: [u8; 24] = [0u8; 24];
    let mut i: usize = 0;
    let len = data.len();
    while i < 24
        invariant
            i <= 24,
            len == data@.len(),
            offset + 24 <= data@.len(),
            forall|j: int| 0 <= j < i ==> out@[j] == data@[offset + j],
        decreases 24 - i,
    {
        out[i] = data[offset + i];
        i = i + 1;
    }
    assert(out@ =~= data@.subrange(offset as int, offset + 24));
    out
}

/// Copies `data[offset..offset + 64]` into an array.
pub fn take_64(data: &[u8], offset: usize) -> (out: [u8; 64])
    requires
        offset + 64 <= data@.len(),
    ensures
        out@ == data@.subrange(offset as int, offset + 64),
{
    let mut out: [u8; 64] = [0u8; 64];
    let mut i: usize = 0;
    let len = data.len();
    while i < 64
        invariant
            i <= 64,
            len == data@.len(),
            offset + 64 <= data@.len(),
            forall|j: int| 0 <= j < i ==> out@[j] == data@[offset + j],
        decreases 64 - i,
    {
        out[i] = data[offset + i];
        i = i + 1;
    }
    assert(out@ =~= data@.subrange(offset as int, offset + 64));
    out
}

/// The big-endian bytes of `v` are its base-256 digits, most significant first: the first
/// byte weighs `256^7` and the last is `v % 256`.
pub proof fn law_u64_be_bytes_value(v: u64)
    ensures
        u64_be_bytes(v).len() == 8,
        u64_be_bytes(v)[7] == v % 256,
        u64_be_bytes(v)[0] == v / 0x100000000000000,
        v as int == u64_be_bytes(v)[0] as int * 0x100000000000000 + u64_be_bytes(v)[1] as int
            * 0x1000000000000 + u64_be_bytes(v)[2] as int * 0x10000000000 + u64_be_bytes(v)[3] as int
            * 0x100000000 + u64_be_bytes(v)[4] as int * 0x1000000 + u64_be_bytes(v)[5] as int
            * 0x10000 + u64_be_bytes(v)[6] as int * 0x100 + u64_be_bytes(v)[7] as int,
{
    let b = u64_be_bytes(v);
    let (b0, b1, b2, b3, b4, b5, b6, b7) = (b[0], b[1], b[2], b[3], b[4], b[5], b[6], b[7]);
    assert(b0 == (v >> 56u64) as u8 && b1 == (v >> 48u64) as u8 && b2 == (v >> 40u64) as u8
        && b3 == (v >> 32u64) as u8 && b4 == (v >> 24u64) as u8 && b5 == (v >> 16u64) as u8
        && b6 == (v >> 8u64) as u8 && b7 == v as u8);
    assert(b0 == (v >> 56u64) as u8 && b1 == (v >> 48u64) as u8 && b2 == (v >> 40u64) as u8
        && b3 == (v >> 32u64) as u8 && b4 == (v >> 24u64) as u8 && b5 == (v >> 16u64) as u8
        && b6 == (v >> 8u64) as u8 && b7 == v as u8 ==> {
        &&& b7 == v % 256
        &&& b0 == v / 0x100000000000000
        &&& v == (b0 as u64) * 0x100000000000000 + (b1 as u64) * 0x1000000000000 + (b2 as u64)
            * 0x10000000000 + (b3 as u64) * 0x100000000 + (b4 as u64) * 0x1000000 + (b5 as u64)
            * 0x10000 + (b6 as u64) * 0x100 + (b7 as u64)
    }) by (bit_vector);
}

} // verus!
