//! The length header that frames each message on the control connection.

use vstd::prelude::*;

verus! {

/// Number of bytes in the length header.
pub const HEADER_LEN: usize = 8;

/// The unsigned integer that eight bytes denote, most significant byte first.
pub open spec fn be_u64(b: Seq<u8>) -> u64
    recommends
        b.len() == 8,
{
    (b[0] as u64) << 56u64 | (b[1] as u64) << 48u64 | (b[2] as u64) << 40u64 | (b[3] as u64)
        << 32u64 | (b[4] as u64) << 24u64 | (b[5] as u64) << 16u64 | (b[6] as u64) << 8u64 | (
    b[7] as u64)
}

/// The eight bytes of `n`, most significant byte first.
pub open spec fn be_bytes(n: u64) -> Seq<u8> {
    seq![
        (n >> 56u64) as u8,
        (n >> 48u64) as u8,
        (n >> 40u64) as u8,
        (n >> 32u64) as u8,
        (n >> 24u64) as u8,
        (n >> 16u64) as u8,
        (n >> 8u64) as u8,
        n as u8,
    ]
}

/// Writes a payload length as the big-endian header sent ahead of the payload.
pub fn encode_header(len: u64) -> (r: [u8; 8])
    ensures
        r@ == be_bytes(len),
{
    let r: [u8; 8] = [
        (len >> 56u64) as u8,
        (len >> 48u64) as u8,
        (len >> 40u64) as u8,
        (len >> 32u64) as u8,
        (len >> 24u64) as u8,
        (len >> 16u64) as u8,
        (len >> 8u64) as u8,
        len as u8,
    ];
    assert(r@ =~= be_bytes(len));
    r
}

/// Reads the payload length that a big-endian header carries.
pub fn decode_header(h: &[u8; 8]) -> (r: u64)
    ensures
        r == be_u64(h@),
{
    (h[0] as u64) << 56u64 | (h[1] as u64) << 48u64 | (h[2] as u64) << 40u64 | (h[3] as u64)
        << 32u64 | (h[4] as u64) << 24u64 | (h[5] as u64) << 16u64 | (h[6] as u64) << 8u64 | (
    h[7] as u64)
}

/// Decoding the header written for a length gives that length back.
pub proof fn lemma_header_round_trip(n: u64)
    ensures
        be_u64(be_bytes(n)) == n,
{
    let b = be_bytes(n);
    let (b0, b1, b2, b3, b4, b5, b6, b7) = (b[0], b[1], b[2], b[3], b[4], b[5], b[6], b[7]);
    assert(b0 == (n >> 56u64) as u8 && b1 == (n >> 48u64) as u8 && b2 == (n >> 40u64) as u8 && b3
        == (n >> 32u64) as u8 && b4 == (n >> 24u64) as u8 && b5 == (n >> 16u64) as u8 && b6 == (n
        >> 8u64) as u8 && b7 == n as u8);
    assert(((n >> 56u64) as u8 as u64) << 56u64 | ((n >> 48u64) as u8 as u64) << 48u64 | ((n
        >> 40u64) as u8 as u64) << 40u64 | ((n >> 32u64) as u8 as u64) << 32u64 | ((n
        >> 24u64) as u8 as u64) << 24u64 | ((n >> 16u64) as u8 as u64) << 16u64 | ((n
        >> 8u64) as u8 as u64) << 8u64 | (n as u8 as u64) == n) by (bit_vector);
}

/// Every eight-byte header is the encoding of the length it decodes to.
pub proof fn lemma_header_unique(b: Seq<u8>)
    requires
        b.len() == 8,
    ensures
        be_bytes(be_u64(b)) == b,
{
    let (b0, b1, b2, b3, b4, b5, b6, b7) = (b[0], b[1], b[2], b[3], b[4], b[5], b[6], b[7]);
    let n = be_u64(b);
    assert(n == (b0 as u64) << 56u64 | (b1 as u64) << 48u64 | (b2 as u64) << 40u64 | (b3 as u64)
        << 32u64 | (b4 as u64) << 24u64 | (b5 as u64) << 16u64 | (b6 as u64) << 8u64 | (b7 as u64));
    assert((n >> 56u64) as u8 == b0 && (n >> 48u64) as u8 == b1 && (n >> 40u64) as u8 == b2 && (n
        >> 32u64) as u8 == b3 && (n >> 24u64) as u8 == b4 && (n >> 16u64) as u8 == b5 && (n
        >> 8u64) as u8 == b6 && n as u8 == b7) by (bit_vector)
        requires
            n == (b0 as u64) << 56u64 | (b1 as u64) << 48u64 | (b2 as u64) << 40u64 | (b3 as u64)
                << 32u64 | (b4 as u64) << 24u64 | (b5 as u64) << 16u64 | (b6 as u64) << 8u64 | (
            b7 as u64),
    ;
    assert(be_bytes(n) =~= b);
}

/// The bytes of the control connection after the headers of the given
/// message lengths, in the order the messages were sent.
pub open spec fn header_stream(lens: Seq<u64>) -> Seq<u8>
    decreases lens.len(),
{
    if lens.len() == 0 {
        Seq::empty()
    } else {
        header_stream(lens.drop_last()) + be_bytes(lens.last())
    }
}

/// Headers keep the order of their messages: the `k`-th eight bytes of the
/// control connection decode to the length of the `k`-th message sent.
pub proof fn lemma_header_stream_in_order(lens: Seq<u64>, k: int)
    requires
        0 <= k < lens.len(),
    ensures
        header_stream(lens).len() == 8 * lens.len(),
        be_u64(header_stream(lens).subrange(8 * k, 8 * k + 8)) == lens[k],
    decreases lens.len(),
{
    lemma_header_stream_len(lens);
    let prefix = header_stream(lens.drop_last());
    lemma_header_stream_len(lens.drop_last());
    if k == lens.len() - 1 {
        assert(header_stream(lens).subrange(8 * k, 8 * k + 8) =~= be_bytes(lens.last()));
        lemma_header_round_trip(lens.last());
    } else {
        lemma_header_stream_in_order(lens.drop_last(), k);
        assert(header_stream(lens).subrange(8 * k, 8 * k + 8) =~= prefix.subrange(8 * k, 8 * k + 8));
    }
}

proof fn lemma_header_stream_len(lens: Seq<u64>)
    ensures
        header_stream(lens).len() == 8 * lens.len(),
    decreases lens.len(),
{
    if lens.len() > 0 {
        lemma_header_stream_len(lens.drop_last());
    }
}

} // verus!
