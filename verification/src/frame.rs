//! Packing of the fields into the ten raw bytes of a frame.
//!
//! The eight scalar fields form one run of 40 bits, most significant bit
//! first and without gaps: destination (5), priority (2), action (4),
//! source (5), device type (6), device id (6), data type (4) and
//! operation (8). The header byte stands before the run, the payload
//! after it.

use vstd::prelude::*;
use vstd::arithmetic::power2::{lemma2_to64, lemma2_to64_rest, pow2};
use crate::fields::{Field, FieldOutOfRangeError, FrameFields};

verus! {

/// The first byte of every raw frame.
pub const HEADER_ID: u8 = 0x05;

/// `acc` with `field` appended below it: `acc` moves up by the field's
/// width, and the field's value fills the bits that open.
pub open spec fn append_field(acc: nat, fields: FrameFields, field: Field) -> nat {
    acc * pow2(field.bit_width()) + fields.value_of(field) as nat
}

/// The 40-bit number that the scalar fields form: the fields appended one
/// below the other, destination first and operation last.
pub open spec fn packed_bits(fields: FrameFields) -> nat {
    let bits = append_field(0, fields, Field::Destination);
    let bits = append_field(bits, fields, Field::Priority);
    let bits = append_field(bits, fields, Field::Action);
    let bits = append_field(bits, fields, Field::Source);
    let bits = append_field(bits, fields, Field::DeviceType);
    let bits = append_field(bits, fields, Field::DeviceId);
    let bits = append_field(bits, fields, Field::DataType);
    append_field(bits, fields, Field::Operation)
}

/// The number of bits that stand below `field` in the packed region: the
/// widths of the fields that follow it, added up.
pub open spec fn bits_below(field: Field) -> nat {
    match field {
        Field::Destination => 35,
        Field::Priority => 33,
        Field::Action => 29,
        Field::Source => 24,
        Field::DeviceType => 18,
        Field::DeviceId => 12,
        Field::DataType => 8,
        Field::Operation => 0,
    }
}

/// The value that stands at the place of `field` in `bits`.
pub open spec fn field_in(bits: nat, field: Field) -> nat {
    bits / pow2(bits_below(field)) % pow2(field.bit_width())
}

/// Byte `k` of `bits`, counted from the least significant byte.
pub open spec fn byte_of(bits: nat, k: nat) -> u8 {
    (bits / pow2(8 * k) % 0x100) as u8
}

/// The ten raw bytes of a frame: the header, the packed fields from the
/// most significant byte down, and the payload.
pub open spec fn raw_frame(fields: FrameFields) -> Seq<u8> {
    let bits = packed_bits(fields);
    seq![
        HEADER_ID,
        byte_of(bits, 4),
        byte_of(bits, 3),
        byte_of(bits, 2),
        byte_of(bits, 1),
        byte_of(bits, 0),
        fields.payload@[0],
        fields.payload@[1],
        fields.payload@[2],
        fields.payload@[3],
    ]
}

/// Builds the ten raw bytes of a frame, before bit reversal and without
/// the checksum. Fails where a field does not fit in its bit width, and
/// names the first such field.
pub fn pack_frame_bits(frame: &FrameFields) -> (r: Result<[u8; 10], FieldOutOfRangeError>)
    ensures
        r is Ok <==> frame.in_range(),
        r is Ok ==> r->Ok_0@ == raw_frame(*frame),
        r is Ok ==> r->Ok_0@[0] == HEADER_ID,
        r is Err ==> frame.range_error() == Some(r->Err_0),
{
    frame.validate()?;
    let d: u64 = frame.destination as u64;
    let p: u64 = frame.priority as u64;
    let a: u64 = frame.action as u64;
    let s: u64 = frame.source as u64;
    let t: u64 = frame.device_type as u64;
    let i: u64 = frame.device_id as u64;
    let y: u64 = frame.data_type as u64;
    let o: u64 = frame.operation as u64;
    let bits: u64 = (d << 35) | (p << 33) | (a << 29) | (s << 24) | (t << 18) | (i << 12) | (y << 8)
        | o;
    let b4: u8 = (bits >> 32) as u8;
    let b3: u8 = (bits >> 24) as u8;
    let b2: u8 = (bits >> 16) as u8;
    let b1: u8 = (bits >> 8) as u8;
    let b0: u8 = bits as u8;
    proof {
        assert(frame.fits(Field::Destination));
        assert(frame.fits(Field::Priority));
        assert(frame.fits(Field::Action));
        assert(frame.fits(Field::Source));
        assert(frame.fits(Field::DeviceType));
        assert(frame.fits(Field::DeviceId));
        assert(frame.fits(Field::DataType));
        assert(bits == d * 0x8_0000_0000 + p * 0x2_0000_0000 + a * 0x2000_0000 + s * 0x100_0000 + t
            * 0x4_0000 + i * 0x1000 + y * 0x100 + o) by (bit_vector)
            requires
                d <= 31,
                p <= 3,
                a <= 15,
                s <= 31,
                t <= 63,
                i <= 63,
                y <= 15,
                o <= 255,
                bits == (d << 35) | (p << 33) | (a << 29) | (s << 24) | (t << 18) | (i << 12) | (y
                    << 8) | o,
        ;
        assert(b4 == (bits / 0x1_0000_0000 % 0x100) as u8 && b3 == (bits / 0x100_0000 % 0x100) as u8
            && b2 == (bits / 0x1_0000 % 0x100) as u8 && b1 == (bits / 0x100 % 0x100) as u8 && b0
            == (bits / 1 % 0x100) as u8) by (bit_vector)
            requires
                b4 == (bits >> 32) as u8,
                b3 == (bits >> 24) as u8,
                b2 == (bits >> 16) as u8,
                b1 == (bits >> 8) as u8,
                b0 == bits as u8,
        ;
        lemma2_to64();
        lemma_packed_bits_weights(*frame);
        assert(bits as nat == packed_bits(*frame));
    }
    let raw: [u8; 10] = [
        HEADER_ID,
        b4,
        b3,
        b2,
        b1,
        b0,
        frame.payload[0],
        frame.payload[1],
        frame.payload[2],
        frame.payload[3],
    ];
    assert(raw@ =~= raw_frame(*frame));
    Ok(raw)
}

/// Each field stands in the packed region at a fixed weight: two to the
/// power of the number of bits below it.
pub proof fn lemma_packed_bits_weights(fields: FrameFields)
    ensures
        packed_bits(fields) == fields.destination * pow2(35) + fields.priority * pow2(33)
            + fields.action * pow2(29) + fields.source * pow2(24) + fields.device_type * pow2(18)
            + fields.device_id * pow2(12) + fields.data_type * pow2(8) + fields.operation,
        packed_bits(fields) == fields.destination * 0x8_0000_0000 + fields.priority * 0x2_0000_0000
            + fields.action * 0x2000_0000 + fields.source * 0x100_0000 + fields.device_type
            * 0x4_0000 + fields.device_id * 0x1000 + fields.data_type * 0x100 + fields.operation,
{
    lemma2_to64();
    lemma2_to64_rest();
    let b1 = append_field(0, fields, Field::Destination);
    let b2 = append_field(b1, fields, Field::Priority);
    let b3 = append_field(b2, fields, Field::Action);
    let b4 = append_field(b3, fields, Field::Source);
    let b5 = append_field(b4, fields, Field::DeviceType);
    let b6 = append_field(b5, fields, Field::DeviceId);
    let b7 = append_field(b6, fields, Field::DataType);
    let b8 = append_field(b7, fields, Field::Operation);
    assert(b1 == fields.destination);
    assert(b2 == b1 * 4 + fields.priority);
    assert(b3 == b2 * 16 + fields.action);
    assert(b4 == b3 * 32 + fields.source);
    assert(b5 == b4 * 64 + fields.device_type);
    assert(b6 == b5 * 64 + fields.device_id);
    assert(b7 == b6 * 16 + fields.data_type);
    assert(b8 == b7 * 256 + fields.operation);
    assert(packed_bits(fields) == b8);
}

/// The packed region has no gaps and no overlap: where every field fits,
/// the packed number is below two to the power of 40, and each field's
/// value can be read back at its place.
pub proof fn lemma_packed_bits_hold_fields(fields: FrameFields, field: Field)
    requires
        fields.in_range(),
    ensures
        packed_bits(fields) < pow2(40),
        field_in(packed_bits(fields), field) == fields.value_of(field),
{
    lemma2_to64();
    lemma2_to64_rest();
    lemma_packed_bits_weights(fields);
    assert(fields.fits(Field::Destination));
    assert(fields.fits(Field::Priority));
    assert(fields.fits(Field::Action));
    assert(fields.fits(Field::Source));
    assert(fields.fits(Field::DeviceType));
    assert(fields.fits(Field::DeviceId));
    assert(fields.fits(Field::DataType));
    let d: u64 = fields.destination as u64;
    let p: u64 = fields.priority as u64;
    let a: u64 = fields.action as u64;
    let s: u64 = fields.source as u64;
    let t: u64 = fields.device_type as u64;
    let i: u64 = fields.device_id as u64;
    let y: u64 = fields.data_type as u64;
    let o: u64 = fields.operation as u64;
    let bits: u64 = packed_bits(fields) as u64;
    assert(bits == packed_bits(fields));
    assert(bits < 0x100_0000_0000 && bits / 0x8_0000_0000 % 32 == d && bits / 0x2_0000_0000 % 4 == p
        && bits / 0x2000_0000 % 16 == a && bits / 0x100_0000 % 32 == s && bits / 0x4_0000 % 64 == t
        && bits / 0x1000 % 64 == i && bits / 0x100 % 16 == y && bits / 1 % 256 == o)
        by (bit_vector)
        requires
            d <= 31,
            p <= 3,
            a <= 15,
            s <= 31,
            t <= 63,
            i <= 63,
            y <= 15,
            o <= 255,
            bits == d * 0x8_0000_0000 + p * 0x2_0000_0000 + a * 0x2000_0000 + s * 0x100_0000 + t
                * 0x4_0000 + i * 0x1000 + y * 0x100 + o,
    ;
}

/// The widths of the eight fields add up to 40 bits, and the bits below a
/// field are those of the fields that follow it.
pub proof fn lemma_widths_fill_forty_bits()
    ensures
        bits_below(Field::Destination) + Field::Destination.bit_width() == 40,
        bits_below(Field::Destination) == bits_below(Field::Priority) + Field::Priority.bit_width(),
        bits_below(Field::Priority) == bits_below(Field::Action) + Field::Action.bit_width(),
        bits_below(Field::Action) == bits_below(Field::Source) + Field::Source.bit_width(),
        bits_below(Field::Source) == bits_below(Field::DeviceType) + Field::DeviceType.bit_width(),
        bits_below(Field::DeviceType) == bits_below(Field::DeviceId) + Field::DeviceId.bit_width(),
        bits_below(Field::DeviceId) == bits_below(Field::DataType) + Field::DataType.bit_width(),
        bits_below(Field::DataType) == bits_below(Field::Operation) + Field::Operation.bit_width(),
        bits_below(Field::Operation) == 0,
{
}

/// The five packed bytes of a raw frame give the packed number back, most
/// significant byte first.
pub proof fn lemma_raw_frame_holds_packed_bits(fields: FrameFields)
    requires
        fields.in_range(),
    ensures
        packed_bits(fields) == raw_frame(fields)[1] * pow2(32) + raw_frame(fields)[2] * pow2(24)
            + raw_frame(fields)[3] * pow2(16) + raw_frame(fields)[4] * pow2(8) + raw_frame(
            fields,
        )[5],
{
    lemma2_to64();
    lemma2_to64_rest();
    lemma_packed_bits_hold_fields(fields, Field::Operation);
    let bits: u64 = packed_bits(fields) as u64;
    assert(bits == packed_bits(fields));
    assert(pow2(8 * 4) == 0x1_0000_0000 && pow2(8 * 3) == 0x100_0000 && pow2(8 * 2) == 0x1_0000
        && pow2(8 * 1) == 0x100 && pow2(8 * 0) == 1);
    let b4: u64 = raw_frame(fields)[1] as u64;
    let b3: u64 = raw_frame(fields)[2] as u64;
    let b2: u64 = raw_frame(fields)[3] as u64;
    let b1: u64 = raw_frame(fields)[4] as u64;
    let b0: u64 = raw_frame(fields)[5] as u64;
    assert(b4 == bits / 0x1_0000_0000 % 0x100);
    assert(b3 == bits / 0x100_0000 % 0x100);
    assert(b2 == bits / 0x1_0000 % 0x100);
    assert(b1 == bits / 0x100 % 0x100);
    assert(b0 == bits / 1 % 0x100);
    assert(bits == b4 * 0x1_0000_0000 + b3 * 0x100_0000 + b2 * 0x1_0000 + b1 * 0x100 + b0)
        by (bit_vector)
        requires
            bits < 0x100_0000_0000,
            b4 == bits / 0x1_0000_0000 % 0x100,
            b3 == bits / 0x100_0000 % 0x100,
            b2 == bits / 0x1_0000 % 0x100,
            b1 == bits / 0x100 % 0x100,
            b0 == bits / 1 % 0x100,
    ;
}

/// Two sets of fields that fit and give the same raw frame are the same:
/// nothing is lost in packing.
pub proof fn lemma_raw_frame_injective(a: FrameFields, b: FrameFields)
    requires
        a.in_range(),
        b.in_range(),
        raw_frame(a) == raw_frame(b),
    ensures
        a == b,
{
    lemma_raw_frame_holds_packed_bits(a);
    lemma_raw_frame_holds_packed_bits(b);
    assert(packed_bits(a) == packed_bits(b));
    assert forall|field: Field| a.value_of(field) == b.value_of(field) by {
        lemma_packed_bits_hold_fields(a, field);
        lemma_packed_bits_hold_fields(b, field);
    }
    assert(a.value_of(Field::Destination) == b.value_of(Field::Destination));
    assert(a.value_of(Field::Priority) == b.value_of(Field::Priority));
    assert(a.value_of(Field::Action) == b.value_of(Field::Action));
    assert(a.value_of(Field::Source) == b.value_of(Field::Source));
    assert(a.value_of(Field::DeviceType) == b.value_of(Field::DeviceType));
    assert(a.value_of(Field::DeviceId) == b.value_of(Field::DeviceId));
    assert(a.value_of(Field::DataType) == b.value_of(Field::DataType));
    assert(a.value_of(Field::Operation) == b.value_of(Field::Operation));
    assert(raw_frame(a)[6] == raw_frame(b)[6]);
    assert(raw_frame(a)[7] == raw_frame(b)[7]);
    assert(raw_frame(a)[8] == raw_frame(b)[8]);
    assert(raw_frame(a)[9] == raw_frame(b)[9]);
    assert(a.payload@ =~= b.payload@);
    assert(a.payload == b.payload);
}

} // verus!
