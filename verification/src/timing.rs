//! The presentation clock and the timing tag that goes in front of every segment.
//!
//! A packed audio segment announces the time of its first sample in an ID3 `PRIV` frame
//! at its very start. The frame's payload is the presentation timestamp, a 33-bit count
//! of 90 kHz ticks, as a big-endian number of eight bytes.

use byteorder::BigEndian;
use byteorder::WriteBytesExt;
use id3::TagLike;

use vstd::prelude::*;
use vstd::string::*;

verus! {

/// One more than the largest presentation timestamp: the clock has 33 bits.
pub const TIMESTAMP_LIMIT: u64 = 0x2_0000_0000;

/// Ticks of the presentation clock per millisecond: the clock runs at 90 kHz.
pub const TICKS_PER_MILLISECOND: u64 = 90;

/// The length of a timing tag in bytes, whatever timestamp it carries.
pub const TIMING_TAG_LEN: usize = 73;

/// The owner identifier of the frame that carries the timestamp.
pub open spec fn timestamp_owner() -> Seq<char> {
    "com.apple.streaming.transportStreamTimestamp"@
}

/// The time in milliseconds for which a segment stays available once it has left a
/// window that now holds `window_len` segments: the segment's own duration and that of
/// one full window more.
pub open spec fn availability_window_ms(window_len: nat, segment_duration_ms: nat) -> nat {
    (1 + window_len) * segment_duration_ms
}

/// The presentation timestamp `elapsed_ms` milliseconds after `timestamp`, on a clock
/// that starts over when its 33 bits run out.
pub open spec fn next_timestamp(timestamp: nat, elapsed_ms: nat) -> nat {
    (timestamp + elapsed_ms * TICKS_PER_MILLISECOND as nat) % (TIMESTAMP_LIMIT as nat)
}

/// The eight bytes of `n`, most significant first.
pub open spec fn u64_be_bytes(n: u64) -> Seq<u8> {
    seq![
        (n / 0x100_0000_0000_0000 % 0x100) as u8,
        (n / 0x1_0000_0000_0000 % 0x100) as u8,
        (n / 0x100_0000_0000 % 0x100) as u8,
        (n / 0x1_0000_0000 % 0x100) as u8,
        (n / 0x100_0000 % 0x100) as u8,
        (n / 0x1_0000 % 0x100) as u8,
        (n / 0x100 % 0x100) as u8,
        (n % 0x100) as u8,
    ]
}

/// The number that eight bytes spell, most significant first.
pub open spec fn u64_from_be_bytes(bytes: Seq<u8>) -> nat
    recommends
        bytes.len() == 8,
{
    (bytes[0] as nat) * 0x100_0000_0000_0000 + (bytes[1] as nat) * 0x1_0000_0000_0000 + (
    bytes[2] as nat) * 0x100_0000_0000 + (bytes[3] as nat) * 0x1_0000_0000 + (bytes[4] as nat)
        * 0x100_0000 + (bytes[5] as nat) * 0x1_0000 + (bytes[6] as nat) * 0x100 + (
    bytes[7] as nat)
}

/// The four bytes of `n`, most significant first.
pub open spec fn u32_be_bytes(n: nat) -> Seq<u8>
    recommends
        n < 0x1_0000_0000,
{
    seq![
        (n / 0x100_0000 % 0x100) as u8,
        (n / 0x1_0000 % 0x100) as u8,
        (n / 0x100 % 0x100) as u8,
        (n % 0x100) as u8,
    ]
}

/// The four bytes of `n` as ID3 writes a tag's size: seven bits to the byte, most
/// significant first.
pub open spec fn synchsafe_bytes(n: nat) -> Seq<u8>
    recommends
        n < 0x1000_0000,
{
    seq![
        (n / 0x20_0000 % 0x80) as u8,
        (n / 0x4000 % 0x80) as u8,
        (n / 0x80 % 0x80) as u8,
        (n % 0x80) as u8,
    ]
}

/// An ID3v2.3 `PRIV` frame: the frame's name, the length of what follows the header,
/// two flag bytes that are zero, then the owner, a zero byte, and the data.
pub open spec fn private_frame(owner: Seq<u8>, data: Seq<u8>) -> Seq<u8> {
    seq![0x50u8, 0x52u8, 0x49u8, 0x56u8] + u32_be_bytes(owner.len() + 1 + data.len()) + seq![
        0u8,
        0u8,
    ] + owner + seq![0u8] + data
}

/// An ID3v2.3 tag around `frames`: `ID3`, version 3.0, no flags, the length of the
/// frames, and the frames.
pub open spec fn id3v23_tag(frames: Seq<u8>) -> Seq<u8> {
    seq![0x49u8, 0x44u8, 0x33u8, 3u8, 0u8, 0u8] + synchsafe_bytes(frames.len()) + frames
}

/// The timing tag that announces `timestamp`.
pub open spec fn timing_tag_bytes(timestamp: u64) -> Seq<u8> {
    id3v23_tag(private_frame(encode_owner(), u64_be_bytes(timestamp)))
}

/// The owner identifier as the bytes that stand in the frame.
pub open spec fn encode_owner() -> Seq<u8> {
    Seq::new(timestamp_owner().len(), |i: int| timestamp_owner()[i] as u8)
}

/// What every timing tag begins with: all of it but the eight bytes of the timestamp.
pub open spec fn timing_tag_header() -> Seq<u8> {
    timing_tag_bytes(0).subrange(0, TIMING_TAG_LEN - 8)
}

/// The timestamp that the timing tag at the start of `segment` announces, if `segment`
/// starts with a timing tag.
pub open spec fn read_timing_tag(segment: Seq<u8>) -> Option<u64> {
    if segment.len() >= TIMING_TAG_LEN && segment.subrange(0, TIMING_TAG_LEN - 8)
        == timing_tag_header() {
        Some(
            u64_from_be_bytes(
                segment.subrange(TIMING_TAG_LEN - 8, TIMING_TAG_LEN as int),
            ) as u64,
        )
    } else {
        None
    }
}

/// Writes `n` through `byteorder::WriteBytesExt::write_u64` with `BigEndian` into an empty
/// vector, which cannot fail: the result is the eight bytes of `n`, most significant
/// first.
#[verifier::external_body]
fn write_u64_be(n: u64) -> (bytes: Vec<u8>)
    ensures
        bytes@ == u64_be_bytes(n),
{
    let mut bytes = Vec::with_capacity(8);
    bytes.write_u64::<BigEndian>(n).unwrap();
    bytes
}

/// Builds a tag with `id3::Tag::new`, adds one `id3::frame::Private` frame with
/// `id3::TagLike::add_frame`, and writes it with `id3::Tag::write_to` as
/// `id3::Version::Id3v23` into an empty vector. The encoder writes the tag header, then
/// the frame header with its flags clear, then the owner's UTF-8 bytes, a zero byte, and
/// the data, with neither padding nor unsynchronisation. It refuses sizes of 2^28 bytes
/// and more.
#[verifier::external_body]
fn write_id3v23_private_tag(owner_identifier: &str, private_data: Vec<u8>) -> (tag: Vec<u8>)
    requires
        owner_identifier.spec_bytes().len() + private_data@.len() + 11 < 0x1000_0000,
    ensures
        tag@ == id3v23_tag(private_frame(owner_identifier.spec_bytes(), private_data@)),
{
    let mut tag = id3::Tag::new();
    tag.add_frame(
        id3::frame::Private { owner_identifier: owner_identifier.to_string(), private_data },
    );
    let mut bytes = Vec::new();
    tag.write_to(&mut bytes, id3::Version::Id3v23).unwrap();
    bytes
}

/// The owner identifier is plain ASCII, 44 characters long, so it takes 44 bytes.
proof fn lemma_owner_bytes(owner: &str)
    requires
        owner@ == timestamp_owner(),
    ensures
        owner.spec_bytes() == encode_owner(),
        encode_owner().len() == 44,
{
    reveal_strlit("com.apple.streaming.transportStreamTimestamp");
    assert(is_ascii(owner)) by {
        assert forall|i: int| 0 <= i < owner@.len() implies (owner@[i] as u32) < 128 by {}
    }
    is_ascii_spec_bytes(owner);
}

/// A timing tag is 73 bytes long, and the timestamp is its last eight bytes.
pub proof fn lemma_timing_tag_layout(timestamp: u64)
    ensures
        timing_tag_bytes(timestamp).len() == TIMING_TAG_LEN,
        timing_tag_bytes(timestamp).subrange(TIMING_TAG_LEN - 8, TIMING_TAG_LEN as int)
            == u64_be_bytes(timestamp),
        timing_tag_bytes(timestamp).subrange(0, TIMING_TAG_LEN - 8) == timing_tag_header(),
{
    reveal_strlit("com.apple.streaming.transportStreamTimestamp");
    let owner = encode_owner();
    assert(owner.len() == 44);
    let frame = private_frame(owner, u64_be_bytes(timestamp));
    let zero = private_frame(owner, u64_be_bytes(0));
    assert(frame.len() == 63);
    assert(zero.len() == 63);
    assert(frame.subrange(0, 55) =~= zero.subrange(0, 55));
    assert(frame.subrange(55, 63) =~= u64_be_bytes(timestamp));
    let tag = timing_tag_bytes(timestamp);
    let tag_zero = timing_tag_bytes(0);
    assert(tag.len() == 73);
    assert(tag.subrange(65, 73) =~= frame.subrange(55, 63));
    assert forall|i: int| 0 <= i < 65 implies tag[i] == tag_zero[i] by {
        if i >= 10 {
            assert(tag[i] == frame[i - 10]);
            assert(tag_zero[i] == zero[i - 10]);
            assert(frame[i - 10] == frame.subrange(0, 55)[i - 10]);
            assert(zero[i - 10] == zero.subrange(0, 55)[i - 10]);
        }
    }
    assert(tag.subrange(0, 65) =~= tag_zero.subrange(0, 65));
}

/// Eight bytes written most significant first spell the number they were made from.
pub proof fn lemma_u64_be_round_trip(n: u64)
    ensures
        u64_be_bytes(n).len() == 8,
        u64_from_be_bytes(u64_be_bytes(n)) == n,
{
    let q1 = n / 0x100;
    let q2 = q1 / 0x100;
    let q3 = q2 / 0x100;
    let q4 = q3 / 0x100;
    let q5 = q4 / 0x100;
    let q6 = q5 / 0x100;
    let q7 = q6 / 0x100;
    assert(q2 == n / 0x1_0000);
    assert(q3 == n / 0x100_0000);
    assert(q4 == n / 0x1_0000_0000);
    assert(q5 == n / 0x100_0000_0000);
    assert(q6 == n / 0x1_0000_0000_0000);
    assert(q7 == n / 0x100_0000_0000_0000);
    assert(q7 < 0x100);
    let bytes = u64_be_bytes(n);
    assert(bytes[7] == n % 0x100);
    assert(bytes[6] == q1 % 0x100);
    assert(bytes[5] == q2 % 0x100);
    assert(bytes[4] == q3 % 0x100);
    assert(bytes[3] == q4 % 0x100);
    assert(bytes[2] == q5 % 0x100);
    assert(bytes[1] == q6 % 0x100);
    assert(bytes[0] == q7);
    assert(q6 == q7 * 0x100 + q6 % 0x100);
    assert(q5 == q6 * 0x100 + q5 % 0x100);
    assert(q4 == q5 * 0x100 + q4 % 0x100);
    assert(q3 == q4 * 0x100 + q3 % 0x100);
    assert(q2 == q3 * 0x100 + q2 % 0x100);
    assert(q1 == q2 * 0x100 + q1 % 0x100);
    assert(n == q1 * 0x100 + n % 0x100);
}

/// The timestamp read back from the start of a tagged segment is exactly the one the
/// tag was built from, whatever payload follows the tag. A timestamp of 33 bits leaves
/// the upper 31 bits of its eight bytes zero.
pub proof fn lemma_timing_tag_round_trip(timestamp: u64, payload: Seq<u8>)
    ensures
        read_timing_tag(timing_tag_bytes(timestamp) + payload) == Some(timestamp),
        timestamp < TIMESTAMP_LIMIT ==> {
            let bytes = u64_be_bytes(timestamp);
            bytes[0] == 0 && bytes[1] == 0 && bytes[2] == 0 && bytes[3] <= 1
        },
{
    lemma_timing_tag_layout(timestamp);
    lemma_u64_be_round_trip(timestamp);
    let tag = timing_tag_bytes(timestamp);
    let segment = tag + payload;
    assert(segment.subrange(0, TIMING_TAG_LEN - 8) =~= tag.subrange(0, TIMING_TAG_LEN - 8));
    assert(segment.subrange(TIMING_TAG_LEN - 8, TIMING_TAG_LEN as int) =~= tag.subrange(
        TIMING_TAG_LEN - 8,
        TIMING_TAG_LEN as int,
    ));
}

/// Builds the timing tag that announces `timestamp`.
pub fn timing_tag(timestamp: u64) -> (tag: Vec<u8>)
    ensures
        tag@ == timing_tag_bytes(timestamp),
        tag@.len() == TIMING_TAG_LEN,
{
    let owner = "com.apple.streaming.transportStreamTimestamp";
    let data = write_u64_be(timestamp);
    proof {
        lemma_owner_bytes(owner);
        lemma_timing_tag_layout(timestamp);
    }
    write_id3v23_private_tag(owner, data)
}

/// Puts the timing tag for `timestamp` in front of `payload`.
pub fn tag_segment(timestamp: u64, payload: Vec<u8>) -> (segment: Vec<u8>)
    ensures
        segment@ == timing_tag_bytes(timestamp) + payload@,
{
    let mut payload = payload;
    let mut segment = timing_tag(timestamp);
    segment.append(&mut payload);
    segment
}

/// Advances the presentation clock by `elapsed_ms` milliseconds.
pub fn advance_timestamp(timestamp: u64, elapsed_ms: u64) -> (next: u64)
    ensures
        next == next_timestamp(timestamp as nat, elapsed_ms as nat),
        next < TIMESTAMP_LIMIT,
{
    let rate: u128 = TICKS_PER_MILLISECOND as u128;
    assert(elapsed_ms * rate <= u64::MAX * 90) by (nonlinear_arith)
        requires
            elapsed_ms <= u64::MAX,
            rate == 90,
    ;
    let ticks: u128 = timestamp as u128 + elapsed_ms as u128 * rate;
    (ticks % (TIMESTAMP_LIMIT as u128)) as u64
}

} // verus!
