//! The postcard wire format of the shared message types. A `u8` and a fixed array of `u8`
//! travel as their raw bytes; a `u64`, and the variant index of an enum, as a LEB128 varint,
//! which `postcard` encodes and decodes.
use vstd::prelude::*;
use base64::Engine;

verus! {

/// LEB128 varint of `v`: seven bits per byte, least significant first, the high bit set on
/// every byte but the last.
pub open spec fn varint(v: nat) -> Seq<u8>
    decreases v,
{
    if v < 128 {
        seq![v as u8]
    } else {
        seq![(v % 128 + 128) as u8] + varint(v / 128)
    }
}

/// What `postcard::take_from_bytes::<u64>` reads from a byte string: the value and the bytes
/// after it, or `None` on an error.
pub uninterp spec fn postcard_take_u64(data: Seq<u8>) -> Option<(u64, Seq<u8>)>;

/// What `postcard::take_from_bytes::<u32>` reads from a byte string (also how an enum variant
/// index is read): the value and the bytes after it, or `None` on an error.
pub uninterp spec fn postcard_take_u32(data: Seq<u8>) -> Option<(u32, Seq<u8>)>;

/// The bytes that standard base64 text decodes to, `None` when it is not valid base64.
pub uninterp spec fn base64_standard_decode(text: Seq<char>) -> Option<Seq<u8>>;

/// A varint has at least one byte, and a number below 128 is its own single byte.
pub proof fn lemma_varint_nonempty(v: nat)
    ensures
        varint(v).len() >= 1,
        v < 128 ==> varint(v) == seq![v as u8],
    decreases v,
{
    if v >= 128 {
        lemma_varint_nonempty(v / 128);
    }
}

/// `128` to the power `k`: the numbers below it take at most `k` varint bytes.
pub open spec fn pow128(k: nat) -> nat
    decreases k,
{
    if k == 0 {
        1
    } else {
        128 * pow128((k - 1) as nat)
    }
}

/// A number below `128^k` has a varint of at most `k` bytes.
pub proof fn lemma_varint_len(v: nat, k: nat)
    requires
        k >= 1,
        v < pow128(k),
    ensures
        varint(v).len() <= k,
    decreases k,
{
    if v >= 128 {
        assert(k >= 2) by {
            if k == 1 {
                assert(pow128(1) == 128 * pow128(0));
            }
        }
        assert(v / 128 < pow128((k - 1) as nat)) by (nonlinear_arith)
            requires
                v < 128 * pow128((k - 1) as nat),
        ;
        lemma_varint_len(v / 128, (k - 1) as nat);
    }
}

/// The varint of a `u64` takes at most ten bytes.
pub proof fn lemma_varint_u64_len(v: u64)
    ensures
        varint(v as nat).len() <= 10,
{
    assert(pow128(10) == 1180591620717411303424) by {
        reveal_with_fuel(pow128, 11);
    }
    lemma_varint_len(v as nat, 10);
}

/// `postcard::to_allocvec` of a `u64`: its varint. Serializing into a growable vector does
/// not fail, so the `unwrap` never panics.
#[verifier::external_body]
pub(crate) fn postcard_u64(v: u64) -> (out: Vec<u8>)
    ensures
        out@ == varint(v as nat),
{
    postcard::to_allocvec(&v).unwrap()
}

/// `postcard::to_allocvec` of a `u32` (how an enum variant index is written): its varint.
#[verifier::external_body]
pub(crate) fn postcard_u32(v: u32) -> (out: Vec<u8>)
    ensures
        out@ == varint(v as nat),
{
    postcard::to_allocvec(&v).unwrap()
}

/// `postcard::take_from_bytes::<u64>`: the contract names the result and states that the
/// varint of a value, followed by anything, reads back as that value and the rest.
#[verifier::external_body]
pub(crate) fn postcard_read_u64(data: &[u8]) -> (res: Option<(u64, &[u8])>)
    ensures
        res matches Some((v, rest)) ==> postcard_take_u64(data@) == Some((v, rest@)),
        res is None ==> postcard_take_u64(data@) is None,
        forall|v: u64, tail: Seq<u8>|
            data@ == varint(v as nat) + tail ==> res is Some && res.unwrap().0 == v
                && res.unwrap().1@ == tail,
{
    postcard::take_from_bytes::<u64>(data).ok()
}

/// `postcard::take_from_bytes::<u32>`: the contract names the result and states that the
/// varint of a value, followed by anything, reads back as that value and the rest.
#[verifier::external_body]
pub(crate) fn postcard_read_u32(data: &[u8]) -> (res: Option<(u32, &[u8])>)
    ensures
        res matches Some((v, rest)) ==> postcard_take_u32(data@) == Some((v, rest@)),
        res is None ==> postcard_take_u32(data@) is None,
        forall|v: u32, tail: Seq<u8>|
            data@ == varint(v as nat) + tail ==> res is Some && res.unwrap().0 == v
                && res.unwrap().1@ == tail,
{
    postcard::take_from_bytes::<u32>(data).ok()
}

/// `base64::engine::general_purpose::STANDARD.decode`: the contract names the decoded bytes.
#[verifier::external_body]
pub(crate) fn base64_decode(text: &str) -> (res: Option<Vec<u8>>)
    ensures
        res matches Some(bytes) ==> base64_standard_decode(text@) == Some(bytes@),
        res is None ==> base64_standard_decode(text@) is None,
{
    base64::engine::general_purpose::STANDARD.decode(text).ok()
}

} // verus!
