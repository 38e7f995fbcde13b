//! Encoder for the fixed 14-byte command and telemetry frame of a
//! point-to-point link.
//!
//! A frame is built in three stages: the fields are packed into ten raw
//! bytes, the bit order of every byte is reversed, and a CRC-32/MPEG-2
//! checksum of the reversed bytes is appended.

use vstd::prelude::*;

pub mod bits;
pub mod crc;
pub mod fields;
pub mod frame;

pub use bits::{reverse_all_bytes, reverse_bits_in_byte};
pub use crc::crc32_mpeg2_with_padding;
pub use fields::{Field, FieldOutOfRangeError, FrameFields};
pub use frame::{pack_frame_bits, HEADER_ID};

verus! {

/// The ten bytes of a frame before its checksum: the raw frame with the
/// bit order of every byte reversed.
pub open spec fn frame_body(fields: FrameFields) -> Seq<u8> {
    bits::reversed_bytes(frame::raw_frame(fields))
}

/// The fourteen bytes of a frame: its body, then the checksum of the body.
pub open spec fn encoded_frame(fields: FrameFields) -> Seq<u8> {
    frame_body(fields) + crc::checksum(frame_body(fields))
}

/// What `encode_frame` gives for `fields`: the encoded frame where every
/// field fits, else the error of the range check.
pub open spec fn encoding(fields: FrameFields) -> Result<Seq<u8>, FieldOutOfRangeError> {
    match fields.range_error() {
        Some(e) => Err(e),
        None => Ok(encoded_frame(fields)),
    }
}

/// A result of `encode_frame` as a value of the model.
pub open spec fn result_view(r: Result<Vec<u8>, FieldOutOfRangeError>) -> Result<
    Seq<u8>,
    FieldOutOfRangeError,
> {
    match r {
        Ok(v) => Ok(v@),
        Err(e) => Err(e),
    }
}

/// Encodes a frame: packs the fields, reverses the bit order of every
/// byte, and appends the checksum of the reversed bytes. Fails where a
/// field does not fit in its bit width, and only there.
pub fn encode_frame(frame: &FrameFields) -> (r: Result<Vec<u8>, FieldOutOfRangeError>)
    ensures
        result_view(r) == encoding(*frame),
        r is Ok <==> frame.in_range(),
        r is Ok ==> r->Ok_0@.len() == 14 && r->Ok_0@[0] == 0xA0,
{
    proof {
        fields::lemma_in_range_iff_no_misfit(*frame);
        lemma_encoded_frame_shape(*frame);
    }
    let raw10: [u8; 10] = pack_frame_bits(frame)?;
    let reversed: Vec<u8> = reverse_all_bytes(raw10.as_slice());
    let crc_le: [u8; 4] = crc32_mpeg2_with_padding(reversed.as_slice());
    let mut out: Vec<u8> = Vec::with_capacity(14);
    out.extend_from_slice(reversed.as_slice());
    out.extend_from_slice(crc_le.as_slice());
    assert(out@ =~= encoded_frame(*frame));
    Ok(out)
}

/// An encoded frame has fourteen bytes, and its first byte is the header
/// with its bit order reversed.
pub proof fn lemma_encoded_frame_shape(fields: FrameFields)
    ensures
        frame::raw_frame(fields).len() == 10,
        frame::raw_frame(fields)[0] == HEADER_ID,
        frame_body(fields).len() == 10,
        encoded_frame(fields).len() == 14,
        encoded_frame(fields)[0] == bits::reversed_byte(HEADER_ID),
        encoded_frame(fields)[0] == 0xA0,
{
    assert(bits::reversed_byte(0x05) == 0xA0) by (bit_vector);
}

/// The checksum of a frame is taken over its first ten bytes as they are
/// sent, after bit reversal: the last four bytes of a frame are the
/// checksum of the others.
pub proof fn lemma_checksum_covers_body(fields: FrameFields)
    ensures
        encoded_frame(fields).subrange(0, 10) == frame_body(fields),
        encoded_frame(fields).subrange(0, 10) == bits::reversed_bytes(frame::raw_frame(fields)),
        encoded_frame(fields).subrange(10, 14) == crc::checksum(
            encoded_frame(fields).subrange(0, 10),
        ),
{
    lemma_encoded_frame_shape(fields);
    assert(encoded_frame(fields).subrange(0, 10) =~= frame_body(fields));
    assert(encoded_frame(fields).subrange(10, 14) =~= crc::checksum(frame_body(fields)));
}

/// Two sets of fields that fit and give the same encoded frame are the
/// same: a frame tells its fields.
pub proof fn lemma_encoded_frame_injective(a: FrameFields, b: FrameFields)
    requires
        a.in_range(),
        b.in_range(),
        encoded_frame(a) == encoded_frame(b),
    ensures
        a == b,
{
    lemma_checksum_covers_body(a);
    lemma_checksum_covers_body(b);
    bits::lemma_reverse_all_involution(frame::raw_frame(a));
    bits::lemma_reverse_all_involution(frame::raw_frame(b));
    frame::lemma_raw_frame_injective(a, b);
}

/// Encoding is a function of the fields: two results of `encode_frame` for
/// the same fields hold the same bytes, or the same error.
pub proof fn lemma_encoding_deterministic(
    fields: FrameFields,
    first: Result<Vec<u8>, FieldOutOfRangeError>,
    second: Result<Vec<u8>, FieldOutOfRangeError>,
)
    requires
        result_view(first) == encoding(fields),
        result_view(second) == encoding(fields),
    ensures
        first is Ok <==> second is Ok,
        first is Ok ==> first->Ok_0@ == second->Ok_0@,
        first is Err ==> first->Err_0 == second->Err_0,
{
}

} // verus!
