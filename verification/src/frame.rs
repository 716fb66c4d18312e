//! The wire format of one frame and its decoder.

use byte_slice_cast::AsSliceOf;
use vstd::prelude::*;

verus! {

/// Frequency channels in one frame.
pub const CHANNELS: usize = 2048;

/// Bytes of one sample on the wire.
pub const SAMPLE_SIZE: usize = 4;

/// Bytes of one frame on the wire: `CHANNELS` samples of `SAMPLE_SIZE` bytes.
pub const PAYLOAD_SIZE: usize = 8192;

/// Why a payload is no frame.
#[derive(Debug, Clone, Copy, PartialEq, Eq)]
pub enum DecodeError {
    /// The payload's length is no multiple of the sample size.
    Unpacked { len: usize },
    /// The payload is packed, but holds another number of samples than
    /// there are channels.
    ChannelCount { channels: usize },
}

/// Four bytes read as one little-endian 32-bit word.
pub open spec fn le_word(b0: u8, b1: u8, b2: u8, b3: u8) -> u32 {
    (b0 as int + 256 * (b1 as int) + 65536 * (b2 as int) + 16777216 * (b3 as int)) as u32
}

/// The `i`-th word packed into `bytes`.
pub open spec fn word_at(bytes: Seq<u8>, i: int) -> u32 {
    le_word(bytes[4 * i], bytes[4 * i + 1], bytes[4 * i + 2], bytes[4 * i + 3])
}

/// Every whole word packed into `bytes`, in order.
pub open spec fn packed_words(bytes: Seq<u8>) -> Seq<u32> {
    Seq::new((bytes.len() / 4) as nat, |i: int| word_at(bytes, i))
}

/// Byte `j` of the four that hold `w` as a little-endian word.
pub open spec fn le_byte(w: u32, j: int) -> u8 {
    if j == 0 {
        (w % 256) as u8
    } else if j == 1 {
        (w / 256 % 256) as u8
    } else if j == 2 {
        (w / 65536 % 256) as u8
    } else {
        (w / 16777216 % 256) as u8
    }
}

/// The payload that holds `words` packed, in order: what a producer sends.
pub open spec fn pack(words: Seq<u32>) -> Seq<u8> {
    Seq::new(4 * words.len(), |k: int| le_byte(words[k / 4], k % 4))
}

/// Whether a payload of `len` bytes is one frame.
pub open spec fn is_frame_len(len: nat) -> bool {
    len == PAYLOAD_SIZE
}

/// The error that a payload of `len` bytes is refused with, where
/// `len` is not the length of a frame.
pub open spec fn refusal(len: nat) -> DecodeError {
    if len % 4 != 0 {
        DecodeError::Unpacked { len: len as usize }
    } else {
        DecodeError::ChannelCount { channels: (len / 4) as usize }
    }
}

/// A frame is its channels' samples, packed: no header, no padding.
pub proof fn law_frame_is_packed_channels()
    ensures
        SAMPLE_SIZE == 4,
        PAYLOAD_SIZE == CHANNELS * SAMPLE_SIZE,
        forall|len: nat| is_frame_len(len) <==> len % 4 == 0 && len / 4 == CHANNELS,
{
}

/// A word is the little-endian reading of its own four bytes.
pub proof fn law_word_of_its_bytes(w: u32)
    ensures
        le_word(le_byte(w, 0), le_byte(w, 1), le_byte(w, 2), le_byte(w, 3)) == w,
{
}

/// The bytes of a word read from four bytes are those four bytes.
pub proof fn law_bytes_of_their_word(b0: u8, b1: u8, b2: u8, b3: u8)
    ensures
        le_byte(le_word(b0, b1, b2, b3), 0) == b0,
        le_byte(le_word(b0, b1, b2, b3), 1) == b1,
        le_byte(le_word(b0, b1, b2, b3), 2) == b2,
        le_byte(le_word(b0, b1, b2, b3), 3) == b3,
{
}

/// Unpacking gives back exactly the words that were packed, none lost, none
/// added, each in its place.
pub proof fn law_unpack_inverts_pack(words: Seq<u32>)
    ensures
        pack(words).len() == 4 * words.len(),
        packed_words(pack(words)) == words,
{
    let bytes = pack(words);
    assert(packed_words(bytes).len() == words.len());
    assert forall|i: int| 0 <= i < words.len() implies packed_words(bytes)[i] == words[i] by {
        let w = words[i];
        assert((4 * i) / 4 == i && (4 * i) % 4 == 0);
        assert((4 * i + 1) / 4 == i && (4 * i + 1) % 4 == 1);
        assert((4 * i + 2) / 4 == i && (4 * i + 2) % 4 == 2);
        assert((4 * i + 3) / 4 == i && (4 * i + 3) % 4 == 3);
        assert(bytes[4 * i] == le_byte(w, 0));
        assert(bytes[4 * i + 1] == le_byte(w, 1));
        assert(bytes[4 * i + 2] == le_byte(w, 2));
        assert(bytes[4 * i + 3] == le_byte(w, 3));
        law_word_of_its_bytes(w);
    }
    assert(packed_words(bytes) =~= words);
}

/// Packing the words of a packed payload gives back the payload, byte for
/// byte: a frame and its samples determine each other.
pub proof fn law_pack_inverts_unpack(bytes: Seq<u8>)
    requires
        bytes.len() % 4 == 0,
    ensures
        pack(packed_words(bytes)) == bytes,
{
    let words = packed_words(bytes);
    assert(pack(words).len() == bytes.len());
    assert forall|k: int| 0 <= k < bytes.len() implies pack(words)[k] == bytes[k] by {
        let i = k / 4;
        let j = k % 4;
        assert(k == 4 * i + j && 0 <= j < 4 && 0 <= i < words.len());
        assert(words[i] == word_at(bytes, i));
        law_bytes_of_their_word(
            bytes[4 * i],
            bytes[4 * i + 1],
            bytes[4 * i + 2],
            bytes[4 * i + 3],
        );
    }
    assert(pack(words) =~= bytes);
}

/// The outside crate's error for a slice that cannot be cast.
#[verifier::external_type_specification]
#[verifier::external_body]
pub struct ExCastError(byte_slice_cast::Error);

/// Calls `byte_slice_cast::AsSliceOf::as_slice_of` with groups of four bytes
/// as the target type, and copies the groups out.
///
/// Not proved. A group of four bytes has alignment one, so the cast never
/// fails on the buffer's address: it fails exactly when the length is no
/// multiple of four, and otherwise hands back the same bytes, four by four,
/// in their order.
#[verifier::external_body]
fn cast_groups(buf: &[u8]) -> (r: Result<Vec<[u8; 4]>, byte_slice_cast::Error>)
    ensures
        r.is_ok() <==> buf@.len() % 4 == 0,
        r matches Ok(groups) ==> {
            &&& groups@.len() * 4 == buf@.len()
            &&& forall|i: int|
                0 <= i < groups@.len() ==> (#[trigger] groups@[i])@ == buf@.subrange(
                    4 * i,
                    4 * i + 4,
                )
        },
{
    match buf.as_slice_of::<[u8; 4]>() {
        Ok(groups) => Ok(groups.to_vec()),
        Err(e) => Err(e),
    }
}

/// One group of four bytes as a little-endian word.
fn word_of(group: &[u8; 4]) -> (w: u32)
    ensures
        w == le_word(group@[0], group@[1], group@[2], group@[3]),
{
    let b0: u32 = group[0] as u32;
    let b1: u32 = group[1] as u32;
    let b2: u32 = group[2] as u32;
    let b3: u32 = group[3] as u32;
    b0 + 256 * b1 + 65536 * b2 + 16777216 * b3
}

/// Decodes one frame: `PAYLOAD_SIZE` bytes holding `CHANNELS` packed
/// little-endian samples. Any other payload is refused, whole; nothing is
/// cut off or filled in.
pub fn decode(buf: &[u8]) -> (r: Result<Vec<u32>, DecodeError>)
    ensures
        r.is_ok() <==> is_frame_len(buf@.len()),
        r matches Ok(words) ==> words@.len() == CHANNELS && words@ == packed_words(buf@),
        r matches Err(e) ==> e == refusal(buf@.len()),
{
    match cast_groups(buf) {
        Err(_) => Err(DecodeError::Unpacked { len: buf.len() }),
        Ok(groups) => {
            if groups.len() != CHANNELS {
                return Err(DecodeError::ChannelCount { channels: groups.len() });
            }
            let mut words: Vec<u32> = Vec::with_capacity(CHANNELS);
            let mut i: usize = 0;
            while i < CHANNELS
                invariant
                    i <= CHANNELS,
                    groups@.len() == CHANNELS,
                    buf@.len() == PAYLOAD_SIZE,
                    words@.len() == i,
                    forall|k: int|
                        0 <= k < groups@.len() ==> (#[trigger] groups@[k])@ == buf@.subrange(
                            4 * k,
                            4 * k + 4,
                        ),
                    forall|k: int| 0 <= k < i ==> #[trigger] words@[k] == word_at(buf@, k),
                decreases CHANNELS - i,
            {
                let w: u32 = word_of(&groups[i]);
                words.push(w);
                i += 1;
            }
            assert(words@ =~= packed_words(buf@));
            Ok(words)
        },
    }
}

} // verus!
