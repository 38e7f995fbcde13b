use rust_protocol::{pack_frame_bits, Field, FrameFields};

fn fields(v: [u8; 8], payload: [u8; 4]) -> FrameFields {
    FrameFields {
        destination: v[0],
        priority: v[1],
        action: v[2],
        source: v[3],
        device_type: v[4],
        device_id: v[5],
        data_type: v[6],
        operation: v[7],
        payload,
    }
}

const ALL: [Field; 8] = [
    Field::Destination,
    Field::Priority,
    Field::Action,
    Field::Source,
    Field::DeviceType,
    Field::DeviceId,
    Field::DataType,
    Field::Operation,
];

#[test]
fn pack_sample_frame() {
    let f = fields([2, 1, 1, 1, 0, 2, 5, 5], [0, 0, 0, 0]);
    assert_eq!(
        pack_frame_bits(&f).unwrap(),
        [0x05, 0x12, 0x21, 0x00, 0x25, 0x05, 0x00, 0x00, 0x00, 0x00]
    );
}

#[test]
fn pack_fields_cross_byte_boundaries() {
    // 10101 10 1010 01011 101100 010011 1001 11000011
    let f = fields([0x15, 2, 0xA, 0x0B, 0x2C, 0x13, 0x9, 0xC3], [0x11, 0x22, 0x33, 0x44]);
    assert_eq!(
        pack_frame_bits(&f).unwrap(),
        [0x05, 0xAD, 0x4B, 0xB1, 0x39, 0xC3, 0x11, 0x22, 0x33, 0x44]
    );
}

#[test]
fn pack_each_field_alone_lands_at_its_place() {
    let ones: [(usize, [u8; 5]); 8] = [
        (0, [0x08, 0x00, 0x00, 0x00, 0x00]),
        (1, [0x02, 0x00, 0x00, 0x00, 0x00]),
        (2, [0x00, 0x20, 0x00, 0x00, 0x00]),
        (3, [0x00, 0x01, 0x00, 0x00, 0x00]),
        (4, [0x00, 0x00, 0x04, 0x00, 0x00]),
        (5, [0x00, 0x00, 0x00, 0x10, 0x00]),
        (6, [0x00, 0x00, 0x00, 0x01, 0x00]),
        (7, [0x00, 0x00, 0x00, 0x00, 0x01]),
    ];
    for (k, expected) in ones {
        let mut v = [0u8; 8];
        v[k] = 1;
        let raw = pack_frame_bits(&fields(v, [0; 4])).unwrap();
        assert_eq!(&raw[1..6], &expected[..]);
    }
}

#[test]
fn pack_fields_at_their_limit_fill_the_region() {
    let f = fields([31, 3, 15, 31, 63, 63, 15, 255], [0xDE, 0xAD, 0xBE, 0xEF]);
    assert_eq!(
        pack_frame_bits(&f).unwrap(),
        [0x05, 0xFF, 0xFF, 0xFF, 0xFF, 0xFF, 0xDE, 0xAD, 0xBE, 0xEF]
    );
}

#[test]
fn pack_carries_the_payload_through() {
    let f = fields([0; 8], [0x01, 0x80, 0x7F, 0xFE]);
    let raw = pack_frame_bits(&f).unwrap();
    assert_eq!(raw.len(), 10);
    assert_eq!(&raw[6..], &[0x01, 0x80, 0x7F, 0xFE]);
    assert_eq!(&raw[..6], &[0x05, 0, 0, 0, 0, 0]);
}

#[test]
fn field_widths_sum_to_forty_bits() {
    let total: u32 = ALL.iter().map(|f| u32::from(f.width())).sum();
    assert_eq!(total, 40);
}

#[test]
fn field_limits_follow_from_widths() {
    for f in ALL {
        assert_eq!(u32::from(f.max_allowed()) + 1, 1u32 << f.width());
    }
    assert_eq!(Field::Destination.width(), 5);
    assert_eq!(Field::Priority.width(), 2);
    assert_eq!(Field::Action.width(), 4);
    assert_eq!(Field::Source.width(), 5);
    assert_eq!(Field::DeviceType.width(), 6);
    assert_eq!(Field::DeviceId.width(), 6);
    assert_eq!(Field::DataType.width(), 4);
    assert_eq!(Field::Operation.width(), 8);
}

#[test]
fn field_names() {
    let names: Vec<&str> = ALL.iter().map(|f| f.name()).collect();
    assert_eq!(
        names,
        vec![
            "destination",
            "priority",
            "action",
            "source",
            "device_type",
            "device_id",
            "data_type",
            "operation"
        ]
    );
}

#[test]
fn validate_accepts_fields_in_range() {
    assert_eq!(fields([31, 3, 15, 31, 63, 63, 15, 255], [0; 4]).validate(), Ok(()));
    assert_eq!(fields([0; 8], [0; 4]).validate(), Ok(()));
}

#[test]
fn different_fields_give_different_raw_frames() {
    let base = [2u8, 1, 1, 1, 0, 2, 5, 5];
    let packed = pack_frame_bits(&fields(base, [0; 4])).unwrap();
    for k in 0..8 {
        let mut v = base;
        v[k] ^= 1;
        let other = pack_frame_bits(&fields(v, [0; 4])).unwrap();
        assert_ne!(packed, other);
        assert_eq!(packed[0], other[0]);
        assert_eq!(&packed[6..], &other[6..]);
    }
    assert_ne!(packed, pack_frame_bits(&fields(base, [0, 0, 0, 1])).unwrap());
}

#[test]
fn each_field_reads_back_from_the_packed_bytes() {
    let v = [0x15u8, 2, 0xA, 0x0B, 0x2C, 0x13, 0x9, 0xC3];
    let raw = pack_frame_bits(&fields(v, [0; 4])).unwrap();
    let mut bits: u64 = 0;
    for b in &raw[1..6] {
        bits = bits << 8 | u64::from(*b);
    }
    let below: [u32; 8] = [35, 33, 29, 24, 18, 12, 8, 0];
    for k in 0..8 {
        let width = u32::from(ALL[k].width());
        assert_eq!((bits >> below[k]) & ((1u64 << width) - 1), u64::from(v[k]));
    }
}
