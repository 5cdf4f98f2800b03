//! Byte encoding of field cells, and compression of the encoded bytes.
//!
//! A cell is written as four bytes, least significant first. Compression is
//! done by zstd; what it produces is not modelled here, only named.

use vstd::prelude::*;

verus! {

/// Why a payload could not be produced or read back.
#[derive(Debug, Clone, Copy, PartialEq, Eq, Structural)]
pub enum CompressionError {
    /// The compressor reported a failure.
    EncodeFailed,
    /// The payload is not a complete zstd stream.
    CorruptPayload,
}

/// The four bytes of a cell, least significant first.
pub open spec fn word_bytes(word: u32) -> Seq<u8> {
    seq![
        (word % 256) as u8,
        (word / 256 % 256) as u8,
        (word / 65536 % 256) as u8,
        (word / 16777216) as u8,
    ]
}

/// The cell whose bytes, least significant first, are `b0` to `b3`.
pub open spec fn bytes_word(b0: u8, b1: u8, b2: u8, b3: u8) -> u32 {
    (b0 + 256 * b1 + 65536 * b2 + 16777216 * b3) as u32
}

/// The bytes of `cells`, four per cell, in order.
pub open spec fn encode_cells(cells: Seq<u32>) -> Seq<u8> {
    Seq::new(4 * cells.len(), |i: int| word_bytes(cells[i / 4])[i % 4])
}

/// The cells held by the complete groups of four bytes in `bytes`; up to
/// three trailing bytes are ignored.
pub open spec fn decode_cells(bytes: Seq<u8>) -> Seq<u32> {
    Seq::new(
        bytes.len() / 4,
        |i: int| bytes_word(bytes[4 * i], bytes[4 * i + 1], bytes[4 * i + 2], bytes[4 * i + 3]),
    )
}

/// A cell is recovered from its four bytes.
pub proof fn lemma_word_round_trip(word: u32)
    ensures
        word_bytes(word).len() == 4,
        bytes_word(
            word_bytes(word)[0],
            word_bytes(word)[1],
            word_bytes(word)[2],
            word_bytes(word)[3],
        ) == word,
{
}

/// Decoding the encoding of a sequence of cells gives the sequence back.
pub proof fn lemma_cells_round_trip(cells: Seq<u32>)
    ensures
        encode_cells(cells).len() == 4 * cells.len(),
        decode_cells(encode_cells(cells)) == cells,
{
    let bytes = encode_cells(cells);
    assert forall|i: int| 0 <= i < cells.len() implies #[trigger] decode_cells(bytes)[i]
        == cells[i] by {
        lemma_word_round_trip(cells[i]);
    }
    assert(decode_cells(bytes) =~= cells);
}

/// Encodes `cells` as bytes, four per cell, least significant byte first.
pub fn cells_to_bytes(cells: &Vec<u32>) -> (bytes: Vec<u8>)
    ensures
        bytes@ == encode_cells(cells@),
{
    let mut bytes: Vec<u8> = Vec::new();
    let mut i: usize = 0;
    while i < cells.len()
        invariant
            i <= cells.len(),
            bytes@ == encode_cells(cells@.subrange(0, i as int)),
        decreases cells.len() - i,
    {
        let word: u32 = cells[i];
        let ghost before = bytes@;
        bytes.push((word % 256) as u8);
        bytes.push((word / 256 % 256) as u8);
        bytes.push((word / 65536 % 256) as u8);
        bytes.push((word / 16777216) as u8);
        proof {
            let shorter = cells@.subrange(0, i as int);
            let longer = cells@.subrange(0, i + 1);
            assert(before + word_bytes(word) =~= bytes@);
            assert forall|k: int| 0 <= k < 4 * longer.len() implies #[trigger] bytes@[k]
                == encode_cells(longer)[k] by {
                if k < 4 * i {
                    assert(shorter[k / 4] == longer[k / 4]);
                } else {
                    assert(k / 4 == i as int);
                    assert(k % 4 == k - 4 * i);
                }
            }
            assert(bytes@ =~= encode_cells(longer));
        }
        i = i + 1;
    }
    assert(cells@.subrange(0, i as int) =~= cells@);
    bytes
}

/// Decodes the complete groups of four bytes in `bytes` as cells.
pub fn bytes_to_cells(bytes: &Vec<u8>) -> (cells: Vec<u32>)
    ensures
        cells@ == decode_cells(bytes@),
{
    let count: usize = bytes.len() / 4;
    let mut cells: Vec<u32> = Vec::new();
    let mut i: usize = 0;
    while i < count
        invariant
            count == bytes.len() / 4,
            i <= count,
            cells@ == decode_cells(bytes@).subrange(0, i as int),
        decreases count - i,
    {
        let b0: u8 = bytes[4 * i];
        let b1: u8 = bytes[4 * i + 1];
        let b2: u8 = bytes[4 * i + 2];
        let b3: u8 = bytes[4 * i + 3];
        let word: u32 = (b0 as u32) + 256 * (b1 as u32) + 65536 * (b2 as u32) + 16777216 * (
        b3 as u32);
        cells.push(word);
        assert(cells@ =~= decode_cells(bytes@).subrange(0, i + 1));
        i = i + 1;
    }
    assert(cells@ =~= decode_cells(bytes@));
    cells
}

/// The frame that zstd's `encode_all` produces for `data` at `level`.
pub uninterp spec fn zstd_frame(data: Seq<u8>, level: i32) -> Seq<u8>;

/// What zstd's `decode_all` reads out of `frame`: the content, or nothing
/// when `frame` is not a complete zstd stream.
pub uninterp spec fn zstd_content(frame: Seq<u8>) -> Option<Seq<u8>>;

/// The error of std's I/O, as zstd reports failures. Nothing is read from
/// it.
#[verifier::external_type_specification]
#[verifier::external_body]
pub struct ExIoError(std::io::Error);

/// Calls `zstd::encode_all` on `data`. Trusted: when the call succeeds, its
/// result is the frame named by [`zstd_frame`], and that frame decodes to
/// `data` again (zstd is lossless). Nothing is claimed about when it fails.
#[verifier::external_body]
fn zstd_encode_all(data: &Vec<u8>, level: i32) -> (result: Result<Vec<u8>, std::io::Error>)
    ensures
        result matches Ok(frame) ==> frame@ == zstd_frame(data@, level),
        result matches Ok(frame) ==> zstd_content(frame@) == Some(data@),
{
    zstd::encode_all(data.as_slice(), level)
}

/// Calls `zstd::decode_all` on `frame`. Trusted: the call succeeds exactly
/// when [`zstd_content`] names a content for `frame`, and then returns it.
#[verifier::external_body]
fn zstd_decode_all(frame: &Vec<u8>) -> (result: Result<Vec<u8>, std::io::Error>)
    ensures
        match result {
            Ok(data) => zstd_content(frame@) == Some(data@),
            Err(_) => zstd_content(frame@).is_none(),
        },
{
    zstd::decode_all(frame.as_slice())
}

/// Compresses `data` into a zstd frame.
pub fn compress(data: &Vec<u8>, level: i32) -> (result: Result<Vec<u8>, CompressionError>)
    ensures
        match result {
            Ok(frame) => frame@ == zstd_frame(data@, level) && zstd_content(frame@) == Some(
                data@,
            ),
            Err(e) => e == CompressionError::EncodeFailed,
        },
{
    match zstd_encode_all(data, level) {
        Ok(frame) => Ok(frame),
        Err(_) => Err(CompressionError::EncodeFailed),
    }
}

/// Reads the content of a zstd frame back. Succeeds exactly on the frames
/// that hold a content.
pub fn decompress(frame: &Vec<u8>) -> (result: Result<Vec<u8>, CompressionError>)
    ensures
        match result {
            Ok(data) => zstd_content(frame@) == Some(data@),
            Err(e) => e == CompressionError::CorruptPayload && zstd_content(frame@).is_none(),
        },
{
    match zstd_decode_all(frame) {
        Ok(data) => Ok(data),
        Err(_) => Err(CompressionError::CorruptPayload),
    }
}

/// Encodes `cells` as bytes and compresses them.
pub fn pack_cells(cells: &Vec<u32>, level: i32) -> (result: Result<Vec<u8>, CompressionError>)
    ensures
        match result {
            Ok(frame) => {
                &&& frame@ == zstd_frame(encode_cells(cells@), level)
                &&& zstd_content(frame@) == Some(encode_cells(cells@))
            },
            Err(e) => e == CompressionError::EncodeFailed,
        },
{
    let bytes = cells_to_bytes(cells);
    compress(&bytes, level)
}

/// Decompresses `frame` and decodes its content as cells. Succeeds exactly
/// on the frames that hold a content.
pub fn unpack_cells(frame: &Vec<u8>) -> (result: Result<Vec<u32>, CompressionError>)
    ensures
        match result {
            Ok(cells) => zstd_content(frame@) matches Some(bytes) && cells@ == decode_cells(
                bytes,
            ),
            Err(e) => e == CompressionError::CorruptPayload && zstd_content(frame@).is_none(),
        },
{
    match decompress(frame) {
        Ok(bytes) => Ok(bytes_to_cells(&bytes)),
        Err(e) => Err(e),
    }
}

} // verus!
