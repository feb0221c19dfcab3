use hls_audio_server::timing::{advance_timestamp, tag_segment, timing_tag};

fn expected_tag(timestamp_bytes: [u8; 8]) -> Vec<u8> {
    let mut expected = vec![b'I', b'D', b'3', 3, 0, 0, 0, 0, 0, 63];
    expected.extend_from_slice(b"PRIV");
    expected.extend_from_slice(&[0, 0, 0, 53, 0, 0]);
    expected.extend_from_slice(b"com.apple.streaming.transportStreamTimestamp");
    expected.push(0);
    expected.extend_from_slice(&timestamp_bytes);
    expected
}

#[test]
fn timing_tag_of_zero_has_the_fixed_layout() {
    assert_eq!(timing_tag(0), expected_tag([0; 8]));
    assert_eq!(timing_tag(0).len(), 73);
}

#[test]
fn timing_tag_carries_the_timestamp_big_endian() {
    assert_eq!(
        timing_tag(0x1_2345_6789),
        expected_tag([0, 0, 0, 1, 0x23, 0x45, 0x67, 0x89])
    );
    assert_eq!(
        timing_tag(0x0102_0304_0506_0708),
        expected_tag([1, 2, 3, 4, 5, 6, 7, 8])
    );
}

#[test]
fn timing_tag_is_read_back_by_an_id3_reader() {
    let tag = id3::Tag::read_from2(std::io::Cursor::new(timing_tag(2_880_000))).unwrap();
    let frames: Vec<&id3::Frame> = tag.frames().collect();
    assert_eq!(frames.len(), 1);
    assert_eq!(frames[0].id(), "PRIV");
    match frames[0].content() {
        id3::Content::Private(private) => {
            assert_eq!(
                private.owner_identifier,
                "com.apple.streaming.transportStreamTimestamp"
            );
            assert_eq!(private.private_data, 2_880_000u64.to_be_bytes().to_vec());
        }
        other => panic!("not a private frame: {:?}", other),
    }
}

#[test]
fn tagged_segment_is_tag_then_payload() {
    let segment = tag_segment(90_000, vec![0xff, 0xf1, 0x50, 0x80]);
    let mut expected = expected_tag(90_000u64.to_be_bytes());
    expected.extend_from_slice(&[0xff, 0xf1, 0x50, 0x80]);
    assert_eq!(segment, expected);
}

#[test]
fn tagged_segment_with_empty_payload_is_the_tag() {
    assert_eq!(tag_segment(7, Vec::new()), timing_tag(7));
}

#[test]
fn clock_advances_by_ninety_ticks_per_millisecond() {
    assert_eq!(advance_timestamp(0, 16_000), 1_440_000);
    assert_eq!(advance_timestamp(1_440_000, 24_000), 3_600_000);
    assert_eq!(advance_timestamp(5, 0), 5);
}

#[test]
fn clock_starts_over_after_33_bits() {
    assert_eq!(advance_timestamp(0x1_ffff_ffff, 1), 89);
    assert_eq!(advance_timestamp(0x2_0000_0000 - 90, 1), 0);
    assert!(advance_timestamp(0x1_ffff_ffff, u64::MAX) < 0x2_0000_0000);
}
