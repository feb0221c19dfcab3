use hls_audio_server::m3u8::{HLSConfig, Playlist};
use hls_audio_server::playback::{update_playlist, update_playlist_at, HLSState};
use hls_audio_server::timing::timing_tag;

fn state(segments_to_keep: usize, segment_duration_ms: u64) -> HLSState {
    HLSState::new(Playlist::new(HLSConfig {
        segments_to_keep,
        segment_duration_ms,
        uri: "http://localhost:3000/".to_string(),
        file_extension: ".aac".to_string(),
    }))
}

fn tagged(timestamp: u64, payload: &[u8]) -> Vec<u8> {
    let mut bytes = timing_tag(timestamp);
    bytes.extend_from_slice(payload);
    bytes
}

fn names(state: &HLSState) -> Vec<String> {
    state
        .playlist
        .segments
        .iter()
        .map(|segment| segment.uri["http://localhost:3000/".len()..].to_string())
        .collect()
}

#[test]
fn new_state_has_an_empty_document_and_store() {
    let state = state(3, 8000);
    assert_eq!(state.timestamp, 0);
    assert!(state.segment_data.is_empty());
    assert_eq!(state.media_playlist.version, 3);
    assert_eq!(state.media_playlist.target_duration, 8);
    assert_eq!(state.media_playlist.media_sequence, 0);
    assert!(state.media_playlist.segments.is_empty());
    assert!(state.playlist.segments.is_empty());
}

#[test]
fn first_update_stores_the_tagged_payload() {
    let mut state = state(3, 8000);
    let removal = update_playlist_at(&mut state, 1000, vec![1, 2, 3]);
    assert!(removal.is_none());
    assert_eq!(state.segment_data.len(), 1);
    assert_eq!(
        state.segment_data.get("segment-1000.aac"),
        Some(&tagged(0, &[1, 2, 3]))
    );
    assert_eq!(state.media_playlist.media_sequence, 0);
    assert_eq!(state.media_playlist.segments.len(), 1);
    assert_eq!(
        state.media_playlist.segments[0].uri,
        "http://localhost:3000/segment-1000.aac"
    );
    assert_eq!(state.media_playlist.segments[0].duration_ms, 8000);
    // Two segments' worth of 90 kHz ticks: the new segment and a window of one.
    assert_eq!(state.timestamp, 1_440_000);
}

#[test]
fn clock_advances_by_the_availability_window_of_each_update() {
    let mut state = state(3, 8000);
    let mut seen = Vec::new();
    for k in 0..5 {
        seen.push(state.timestamp);
        update_playlist_at(&mut state, 1000 + k, Vec::new());
    }
    seen.push(state.timestamp);
    assert_eq!(
        seen,
        vec![0, 1_440_000, 3_600_000, 6_480_000, 9_360_000, 12_240_000]
    );
}

#[test]
fn each_segment_is_tagged_with_the_clock_at_its_update() {
    let mut state = state(2, 1500);
    update_playlist_at(&mut state, 1, vec![10]);
    update_playlist_at(&mut state, 2, vec![20, 21]);
    update_playlist_at(&mut state, 3, vec![30]);
    // (1 + 1) * 1500 * 90, then (1 + 2) * 1500 * 90 more.
    assert_eq!(state.segment_data.get("segment-1.aac"), Some(&tagged(0, &[10])));
    assert_eq!(
        state.segment_data.get("segment-2.aac"),
        Some(&tagged(270_000, &[20, 21]))
    );
    assert_eq!(
        state.segment_data.get("segment-3.aac"),
        Some(&tagged(675_000, &[30]))
    );
}

#[test]
fn fourth_update_of_a_window_of_three_evicts_the_first_segment() {
    let mut state = state(3, 8000);
    for (k, t) in [1000i64, 9000, 17000].into_iter().enumerate() {
        let removal = update_playlist_at(&mut state, t, vec![k as u8]);
        assert!(removal.is_none());
    }
    let removal = update_playlist_at(&mut state, 25000, vec![3]).expect("an eviction");
    assert_eq!(removal.name, "segment-1000.aac");
    // (1 + 3) segments of 8 seconds.
    assert_eq!(removal.delay_ms, 32_000);

    assert_eq!(
        names(&state),
        vec!["segment-9000.aac", "segment-17000.aac", "segment-25000.aac"]
    );
    assert_eq!(state.playlist.media_sequence, 1);
    assert_eq!(state.media_playlist.media_sequence, 1);
    assert_eq!(state.media_playlist.segments.len(), 3);

    // The evicted segment stays in the store until it is removed.
    assert_eq!(state.segment_data.len(), 4);
    assert_eq!(state.segment_data.get("segment-1000.aac"), Some(&tagged(0, &[0])));

    state.remove_segment(&removal.name);
    assert_eq!(state.segment_data.len(), 3);
    assert_eq!(state.segment_data.get("segment-1000.aac"), None);
    for name in names(&state) {
        assert!(state.segment_data.contains_key(&name));
    }
}

#[test]
fn delay_grows_with_the_window() {
    let mut one = state(1, 2500);
    update_playlist_at(&mut one, 1, Vec::new());
    let removal = update_playlist_at(&mut one, 2, Vec::new()).expect("an eviction");
    assert_eq!(removal.delay_ms, 5_000);
    assert_eq!(one.availability_window_ms(), 5_000);

    let mut ten = state(10, 2500);
    assert_eq!(ten.availability_window_ms(), 2_500);
    for k in 0..10 {
        assert!(update_playlist_at(&mut ten, k, Vec::new()).is_none());
    }
    let removal = update_playlist_at(&mut ten, 10, Vec::new()).expect("an eviction");
    assert_eq!(removal.name, "segment-0.aac");
    assert_eq!(removal.delay_ms, 27_500);
}

#[test]
fn every_listed_segment_is_in_the_store_after_every_update() {
    let mut state = state(4, 1000);
    let mut pending = Vec::new();
    for k in 0..25 {
        if let Some(removal) = update_playlist_at(&mut state, k * 1000, vec![k as u8; 5]) {
            pending.push(removal.name);
        }
        // Removals run late: two updates after they were scheduled.
        if pending.len() > 2 {
            state.remove_segment(&pending.remove(0));
        }
        for name in names(&state) {
            assert!(state.segment_data.contains_key(&name));
        }
        assert_eq!(
            state.media_playlist.segments.len(),
            state.playlist.segments.len()
        );
        assert_eq!(
            state.media_playlist.media_sequence,
            state.playlist.media_sequence
        );
    }
    assert_eq!(state.playlist.media_sequence, 21);
    assert_eq!(state.segment_data.len(), 4 + pending.len());
}

#[test]
fn presentation_clock_stays_within_33_bits() {
    let mut state = state(2, 60_000_000);
    let mut wrapped = false;
    let mut last = state.timestamp;
    for k in 0..8 {
        update_playlist_at(&mut state, k, Vec::new());
        assert!(state.timestamp < 1 << 33);
        if state.timestamp < last {
            wrapped = true;
        }
        last = state.timestamp;
    }
    assert!(wrapped);
    // Six updates of 3 * 60000 s after the first of 2 * 60000 s, and one more.
    let ticks: u128 = (2 + 7 * 3) * 60_000_000 * 90;
    assert_eq!(state.timestamp as u128, ticks % (1 << 33));
}

#[test]
fn update_with_the_wall_clock_adds_one_segment() {
    let mut state = state(1, 8000);
    let before = chrono::Utc::now().timestamp_millis();
    assert!(update_playlist(&mut state, vec![9, 9]).is_none());
    let after = chrono::Utc::now().timestamp_millis();
    assert_eq!(state.playlist.segments.len(), 1);
    assert_eq!(state.segment_data.len(), 1);
    let name = names(&state).remove(0);
    assert_eq!(state.segment_data.get(&name), Some(&tagged(0, &[9, 9])));
    let millis: i64 = name["segment-".len()..name.len() - ".aac".len()]
        .parse()
        .expect("a number");
    assert!(before <= millis && millis <= after);
    assert_eq!(state.timestamp, 1_440_000);
}

#[test]
fn same_millisecond_overwrites_the_stored_bytes() {
    let mut state = state(3, 8000);
    update_playlist_at(&mut state, 5, vec![1]);
    update_playlist_at(&mut state, 5, vec![2]);
    assert_eq!(names(&state), vec!["segment-5.aac", "segment-5.aac"]);
    assert_eq!(state.segment_data.len(), 1);
    assert_eq!(
        state.segment_data.get("segment-5.aac"),
        Some(&tagged(1_440_000, &[2]))
    );
}

#[test]
fn state_stays_well_formed_under_updates_and_removals() {
    let mut state = state(2, 8000);
    assert!(state.is_well_formed());
    let mut removals = Vec::new();
    for t in 0..6 {
        if let Some(removal) = update_playlist_at(&mut state, t, vec![t as u8]) {
            removals.push(removal);
        }
        assert!(state.is_well_formed());
    }
    assert_eq!(removals.len(), 4);
    for removal in removals {
        state.remove_segment(&removal.name);
        assert!(state.is_well_formed());
    }
    assert_eq!(state.segment_data.len(), 2);
}

#[test]
fn state_with_a_dangling_segment_is_not_well_formed() {
    let mut state = state(2, 8000);
    update_playlist_at(&mut state, 1, vec![1]);
    update_playlist_at(&mut state, 2, vec![2]);
    state.remove_segment("segment-2.aac");
    assert!(!state.is_well_formed());
}

#[test]
fn state_with_a_stale_document_is_not_well_formed() {
    let mut state = state(2, 8000);
    update_playlist_at(&mut state, 1, vec![1]);
    state.playlist.add_segment_at(2);
    assert!(!state.is_well_formed());
}

#[test]
fn state_with_a_clock_beyond_33_bits_is_not_well_formed() {
    let mut state = state(2, 8000);
    state.timestamp = (1 << 33) - 1;
    assert!(state.is_well_formed());
    state.timestamp = 1 << 33;
    assert!(!state.is_well_formed());
}

#[test]
fn state_around_a_used_playlist_is_not_well_formed() {
    let mut playlist = Playlist::new(HLSConfig {
        segments_to_keep: 2,
        segment_duration_ms: 8000,
        uri: "http://localhost:3000/".to_string(),
        file_extension: ".aac".to_string(),
    });
    playlist.add_segment_at(1);
    let state = HLSState::new(playlist);
    assert_eq!(state.media_playlist.segments.len(), 1);
    assert!(state.segment_data.is_empty());
    assert!(!state.is_well_formed());
}

#[test]
fn scheduled_removal_names_the_segment_and_the_delay() {
    let mut state = state(1, 4000);
    assert_eq!(update_playlist_at(&mut state, 1, Vec::new()), None);
    assert_eq!(
        update_playlist_at(&mut state, 2, Vec::new()),
        Some(hls_audio_server::playback::ScheduledRemoval {
            name: "segment-1.aac".to_string(),
            delay_ms: 8000
        })
    );
}

#[test]
fn stored_segment_announces_the_clock_at_its_update() {
    let mut state = state(2, 8000);
    for t in 0..4 {
        let current = state.timestamp;
        let payload = vec![t as u8, 0xaa, 0xbb];
        update_playlist_at(&mut state, t, payload.clone());
        let name = format!("segment-{}.aac", t);
        let stored = state.segment_data.get(&name).expect("the stored segment").clone();

        let tag = id3::Tag::read_from2(std::io::Cursor::new(stored.clone())).unwrap();
        let frame = tag.frames().next().expect("one frame");
        match frame.content() {
            id3::Content::Private(private) => {
                assert_eq!(
                    private.owner_identifier,
                    "com.apple.streaming.transportStreamTimestamp"
                );
                assert_eq!(private.private_data, current.to_be_bytes().to_vec());
                assert_eq!(private.private_data[..3], [0, 0, 0]);
                assert!(private.private_data[3] <= 1);
            }
            other => panic!("not a private frame: {:?}", other),
        }
        assert_eq!(stored[73..], payload[..]);
    }
}
