//! Length-delimited framing of RPC payload bytes.
//!
//! A frame is a base-128 varint length header followed by that many payload
//! bytes. The header is encoded and decoded by the `prost` codec; the framing
//! rules around it (size limits, round trip) are verified here.

use vstd::prelude::*;

verus! {

/// The length header of a frame never takes more than ten bytes.
pub const MAX_LENGTH_HEADER_BYTES: usize = 10;

#[verifier::external_type_specification]
#[verifier::external_body]
pub struct ExDecodeError(prost::DecodeError);

/// The base-128 varint encoding of `n`: seven value bits per byte, least
/// significant group first, the high bit set on every byte but the last.
pub open spec fn varint_encode(n: u64) -> Seq<u8>
    decreases n,
{
    if n < 128 {
        seq![n as u8]
    } else {
        seq![(n % 128 + 128) as u8] + varint_encode(n / 128)
    }
}

/// Relies on prost::encode_length_delimiter: appends the base-128 varint
/// encoding of `len` to the buffer.
#[verifier::external_body]
fn encode_length_header(len: usize, buf: &mut Vec<u8>)
    requires
        old(buf)@.len() + MAX_LENGTH_HEADER_BYTES <= i64::MAX,
    ensures
        final(buf)@ == old(buf)@ + varint_encode(len as u64),
{
    let _ = prost::encode_length_delimiter(len, buf);
}

/// The decoded header equals every length whose varint encoding begins the
/// buffer.
pub open spec fn header_decodes_to(buf: Seq<u8>, r: Result<usize, prost::DecodeError>) -> bool {
    forall|n: u64|
        n <= usize::MAX && #[trigger] varint_encode(n).is_prefix_of(buf) ==> r == Ok::<
            usize,
            prost::DecodeError,
        >(n as usize)
}

/// Relies on prost::decode_length_delimiter: a buffer that begins with the
/// varint encoding of a length decodes to that length, and an empty buffer
/// does not decode.
#[verifier::external_body]
fn decode_length_header(buf: &[u8]) -> (r: Result<usize, prost::DecodeError>)
    ensures
        header_decodes_to(buf@, r),
        buf@.len() == 0 ==> r is Err,
{
    prost::decode_length_delimiter(buf)
}

/// How many bytes the varint encoding of `n` takes: between one and ten.
pub proof fn lemma_varint_encode_len(n: u64)
    ensures
        1 <= varint_encode(n).len() <= MAX_LENGTH_HEADER_BYTES,
{
    assert(pow128(0) == 1);
    assert(pow128(1) == 128);
    assert(pow128(2) == 0x4000);
    assert(pow128(3) == 0x200000);
    assert(pow128(4) == 0x10000000);
    assert(pow128(5) == 0x800000000);
    assert(pow128(6) == 0x40000000000);
    assert(pow128(7) == 0x2000000000000);
    assert(pow128(8) == 0x100000000000000);
    assert(pow128(9) == 0x8000000000000000);
    assert(pow128(10) == 0x400000000000000000);
    lemma_varint_len_bound(n, 10);
}

/// The varint encoding of a value below `128^k` takes at most `k` bytes.
proof fn lemma_varint_len_bound(n: u64, k: nat)
    requires
        n < pow128(k),
        k >= 1,
    ensures
        varint_encode(n).len() <= k,
    decreases n,
{
    if n >= 128 {
        assert(k >= 2) by {
            if k == 1 {
                assert(pow128(1) == 128) by {
                    reveal_with_fuel(pow128, 2);
                }
            }
        }
        assert(pow128(k) == 128 * pow128((k - 1) as nat));
        assert(n / 128 < pow128((k - 1) as nat)) by {
            vstd::arithmetic::div_mod::lemma_multiply_divide_lt(
                n as int,
                128,
                pow128((k - 1) as nat),
            );
        }
        lemma_varint_len_bound(n / 128, (k - 1) as nat);
    }
}

/// `128^k`, the count of values whose varint encoding fits in `k` bytes.
pub open spec fn pow128(k: nat) -> int
    decreases k,
{
    if k == 0 {
        1
    } else {
        128 * pow128((k - 1) as nat)
    }
}

/// A frame: the varint length header followed by the payload bytes.
pub open spec fn frame_of(payload: Seq<u8>) -> Seq<u8> {
    varint_encode(payload.len() as u64) + payload
}

/// Encodes a payload as a frame, refusing a payload above `max_frame_len`
/// with the size-limit error of the RPC taxonomy.
pub fn encode_frame(payload: &Vec<u8>, max_frame_len: usize) -> (r: Result<
    Vec<u8>,
    crate::rpc::RpcError,
>)
    ensures
        payload@.len() <= max_frame_len ==> (r matches Ok(buf) && buf@ == frame_of(payload@)
            && buf@.len() <= payload@.len() + MAX_LENGTH_HEADER_BYTES),
        payload@.len() > max_frame_len ==> (r matches Err(e) && e matches
            crate::rpc::RpcError::MaxRequestSizeExceeded { got, expected }
            && got == payload@.len() && expected == max_frame_len),
{
    proof {
        lemma_varint_encode_len(payload@.len() as u64);
    }
    if payload.len() > max_frame_len {
        return Err(
            crate::rpc::RpcError::MaxRequestSizeExceeded {
                got: payload.len(),
                expected: max_frame_len,
            },
        );
    }
    let mut buf: Vec<u8> = Vec::new();
    encode_length_header(payload.len(), &mut buf);
    let mut i: usize = 0;
    while i < payload.len()
        invariant
            i <= payload@.len(),
            buf@ == varint_encode(payload@.len() as u64) + payload@.subrange(0, i as int),
        decreases payload@.len() - i,
    {
        buf.push(payload[i]);
        i = i + 1;
        assert(buf@ == varint_encode(payload@.len() as u64) + payload@.subrange(0, i as int));
    }
    assert(payload@.subrange(0, payload@.len() as int) == payload@);
    Ok(buf)
}

/// Decodes the length header of a frame, refusing a header that announces
/// more than `max_frame_len` bytes. On a buffer produced by `encode_frame`
/// of a payload within the limit, returns that payload's length.
pub fn decode_frame_length(buf: &Vec<u8>, max_frame_len: usize) -> (r: Result<
    usize,
    crate::rpc::RpcError,
>)
    ensures
        (forall|p: Seq<u8>|
            p.len() <= max_frame_len && frame_of(p).is_prefix_of(buf@) ==> r == Ok::<
                usize,
                crate::rpc::RpcError,
            >(p.len() as usize)),
        buf@.len() == 0 ==> (r matches Err(e) && e is DecodeError),
        r matches Ok(n) ==> n <= max_frame_len,
{
    let header = decode_length_header(buf.as_slice());
    proof {
        lemma_frame_prefix_decodes(buf@, header, max_frame_len as int);
    }
    match header {
        Ok(n) => {
            if n > max_frame_len {
                Err(
                    crate::rpc::RpcError::MaxRequestSizeExceeded {
                        got: n,
                        expected: max_frame_len,
                    },
                )
            } else {
                Ok(n)
            }
        },
        Err(e) => Err(crate::rpc::RpcError::DecodeError(e)),
    }
}

/// A buffer that begins with a whole frame begins with that frame's length
/// header, so the header decodes to the payload's length.
proof fn lemma_frame_prefix_decodes(
    buf: Seq<u8>,
    r: Result<usize, prost::DecodeError>,
    max_frame_len: int,
)
    requires
        header_decodes_to(buf, r),
    ensures
        forall|p: Seq<u8>|
            p.len() <= max_frame_len && max_frame_len <= usize::MAX && #[trigger] frame_of(
                p,
            ).is_prefix_of(buf) ==> r == Ok::<usize, prost::DecodeError>(p.len() as usize),
{
    assert forall|p: Seq<u8>|
        p.len() <= max_frame_len && max_frame_len <= usize::MAX && #[trigger] frame_of(
            p,
        ).is_prefix_of(buf) implies r == Ok::<usize, prost::DecodeError>(p.len() as usize) by {
        let h = varint_encode(p.len() as u64);
        assert(h.is_prefix_of(frame_of(p))) by {
            assert(h =~= frame_of(p).subrange(0, h.len() as int));
        }
        assert(h.is_prefix_of(buf)) by {
            assert(h =~= buf.subrange(0, h.len() as int));
        }
    }
}

} // verus!
