//! The shared state of a stream and the step that adds one segment to it.
//!
//! One step adds a segment to the playlist, stores the segment's payload behind its
//! timing tag, regenerates the playlist document and advances the presentation clock.
//! A segment that leaves the window keeps its bytes until the caller removes them, after
//! the delay that the step hands back.

use vstd::hash_map::StringHashMap;
use vstd::prelude::*;
use vstd::string::*;

use crate::m3u8::{
    current_time_millis, DocumentView, Playlist, PlaylistDocument, PlaylistView,
    lemma_add_segment_keeps_wf,
};
use crate::text::skip_chars;
use crate::timing::{
    advance_timestamp, availability_window_ms, lemma_timing_tag_round_trip, next_timestamp,
    read_timing_tag, tag_segment, timing_tag_bytes, TIMESTAMP_LIMIT,
};

verus! {

/// The main state that holds all playback related data.
pub struct HLSState {
    pub playlist: Playlist,
    /// The document that describes `playlist`.
    pub media_playlist: PlaylistDocument,
    /// The tagged bytes of every segment that can be fetched, by segment name.
    pub segment_data: StringHashMap<Vec<u8>>,
    /// MPEG-2 Program Elementary Stream timestamp of the next segment.
    pub timestamp: u64,
}

/// A segment that has left the window, and how long its bytes are still owed to clients.
#[derive(Debug, PartialEq, Eq)]
pub struct ScheduledRemoval {
    /// The name of the segment.
    pub name: String,
    /// The time to wait before the segment's bytes are removed, in milliseconds.
    pub delay_ms: u64,
}

/// A scheduled removal as mathematical values.
pub struct RemovalView {
    pub name: Seq<char>,
    pub delay_ms: nat,
}

impl View for ScheduledRemoval {
    type V = RemovalView;

    open spec fn view(&self) -> RemovalView {
        RemovalView { name: self.name@, delay_ms: self.delay_ms as nat }
    }
}

/// What an optional removal holds.
pub open spec fn removal_view(removal: Option<ScheduledRemoval>) -> Option<RemovalView> {
    match removal {
        Some(removal) => Some(removal@),
        None => None,
    }
}

/// The bytes stored under each name.
pub open spec fn stored_bytes(segment_data: Map<Seq<char>, Vec<u8>>) -> Map<Seq<char>, Seq<u8>> {
    segment_data.map_values(|bytes: Vec<u8>| bytes@)
}

/// The shared state as mathematical values.
pub struct StateView {
    pub playlist: PlaylistView,
    pub media_playlist: DocumentView,
    pub segment_data: Map<Seq<char>, Seq<u8>>,
    pub timestamp: nat,
}

impl StateView {
    /// The state of a stream that has produced no segment yet.
    pub open spec fn new(playlist: PlaylistView) -> StateView {
        StateView {
            playlist,
            media_playlist: playlist.document(),
            segment_data: Map::empty(),
            timestamp: 0,
        }
    }

    /// Every segment of the window has its bytes in the store.
    pub open spec fn no_dangling_segment(self) -> bool {
        forall|i: int|
            0 <= i < self.playlist.segments.len() ==> self.segment_data.contains_key(
                #[trigger] self.playlist.segment_name_at(i),
            )
    }

    /// The playlist is well formed, the document describes it, the clock has 33 bits, and
    /// the store holds every segment that the playlist names.
    pub open spec fn wf(self) -> bool {
        &&& self.playlist.wf()
        &&& self.media_playlist == self.playlist.document()
        &&& self.timestamp < TIMESTAMP_LIMIT
        &&& self.no_dangling_segment()
    }

    /// How long a segment that leaves the window now stays available, in milliseconds.
    pub open spec fn availability_window_ms(self) -> nat {
        availability_window_ms(self.playlist.segments.len(), self.playlist.config.segment_duration_ms)
    }

    /// The state after the segment created at `timestamp_millis`, with `payload` as its
    /// encoded audio, has been added.
    pub open spec fn update(self, timestamp_millis: int, payload: Seq<u8>) -> StateView {
        let playlist = self.playlist.add_segment(timestamp_millis);
        let added = StateView {
            playlist,
            media_playlist: playlist.document(),
            segment_data: self.segment_data.insert(
                self.playlist.config.segment_name(timestamp_millis),
                timing_tag_bytes(self.timestamp as u64) + payload,
            ),
            timestamp: self.timestamp,
        };
        StateView {
            timestamp: next_timestamp(self.timestamp, added.availability_window_ms()),
            ..added
        }
    }

    /// The removal that adding one more segment schedules: the segment that leaves the
    /// window, if one does, after the availability window of the window as it is then.
    pub open spec fn scheduled_removal(self, timestamp_millis: int) -> Option<RemovalView> {
        match self.playlist.evicted() {
            Some(name) => Some(
                RemovalView {
                    name,
                    delay_ms: self.update(timestamp_millis, Seq::empty()).availability_window_ms(),
                },
            ),
            None => None,
        }
    }

    /// The state after the bytes of the segment called `name` have been removed.
    pub open spec fn remove_segment(self, name: Seq<char>) -> StateView {
        StateView { segment_data: self.segment_data.remove(name), ..self }
    }
}

impl View for HLSState {
    type V = StateView;

    open spec fn view(&self) -> StateView {
        StateView {
            playlist: self.playlist@,
            media_playlist: self.media_playlist@,
            segment_data: stored_bytes(self.segment_data@),
            timestamp: self.timestamp as nat,
        }
    }
}

impl HLSState {
    /// The invariant that every operation on a state keeps.
    pub open spec fn wf(&self) -> bool {
        self@.wf()
    }

    /// The state of a stream around `playlist`, before its first segment: the document of
    /// the playlist as it is, an empty store, and the clock at zero.
    pub fn new(playlist: Playlist) -> (state: HLSState)
        ensures
            state@ == StateView::new(playlist@),
            state.playlist == playlist,
            playlist.wf() && playlist@.segments.len() == 0 ==> state.wf(),
    {
        let media_playlist = playlist.generate_playlist();
        let segment_data = StringHashMap::with_capacity(playlist.config.segments_to_keep);
        let state = HLSState { playlist, media_playlist, segment_data, timestamp: 0 };
        assert(state@.segment_data =~= Map::empty());
        state
    }

    /// Whether the state is well formed.
    pub fn is_well_formed(&self) -> (ok: bool)
        ensures
            ok == self.wf(),
    {
        if !self.playlist.is_well_formed() || !self.playlist.is_described_by(&self.media_playlist)
            || self.timestamp >= TIMESTAMP_LIMIT {
            return false;
        }
        let base_len = self.playlist.config.uri.as_str().unicode_len();
        let mut i: usize = 0;
        while i < self.playlist.segments.len()
            invariant
                self.playlist.wf(),
                base_len == self@.playlist.config.uri.len(),
                i <= self.playlist.segments@.len(),
                forall|j: int|
                    0 <= j < i ==> self@.segment_data.contains_key(
                        #[trigger] self@.playlist.segment_name_at(j),
                    ),
            decreases self.playlist.segments@.len() - i,
        {
            let uri = self.playlist.segments[i].uri.as_str();
            assert(uri@ == self@.playlist.segments[i as int].uri);
            let name = skip_chars(uri, base_len);
            if !self.segment_data.contains_key(name) {
                assert(!self@.segment_data.contains_key(self@.playlist.segment_name_at(i as int)));
                return false;
            }
            i = i + 1;
        }
        true
    }

    /// How long a segment that leaves the window now stays available, in milliseconds.
    pub fn availability_window_ms(&self) -> (ms: u64)
        requires
            self.playlist.wf(),
        ensures
            ms == self@.availability_window_ms(),
    {
        let window_len = self.playlist.segments.len();
        let duration_ms = self.playlist.config.segment_duration_ms;
        assert(1 + window_len <= (1 + window_len) * duration_ms <= u64::MAX) by (nonlinear_arith)
            requires
                window_len <= self.playlist.config.segments_to_keep,
                duration_ms >= 1,
                (1 + self.playlist.config.segments_to_keep) * duration_ms <= u64::MAX,
        ;
        (1 + window_len as u64) * duration_ms
    }

    /// Removes the bytes of the segment called `name`, which must be in the store.
    pub fn remove_segment(&mut self, name: &str)
        requires
            old(self)@.segment_data.contains_key(name@),
        ensures
            final(self)@ == old(self)@.remove_segment(name@),
            old(self).wf() && !old(self)@.playlist.contains_name(name@) ==> final(self).wf(),
    {
        self.segment_data.remove(name);
        assert(self@.segment_data =~= old(self)@.segment_data.remove(name@));
        proof {
            if old(self).wf() && !old(self)@.playlist.contains_name(name@) {
                lemma_removal_keeps_wf(old(self)@, name@);
            }
        }
    }
}

/// Adds a new segment, named after the current time, to the playlist and updates the
/// playlist document and the segment data accordingly.
///
/// Returns the segment whose bytes are to be removed, and after what delay, if the
/// addition pushed a segment out of the window.
pub fn update_playlist(state: &mut HLSState, new_segment_data: Vec<u8>) -> (removal: Option<
    ScheduledRemoval,
>)
    requires
        old(state).wf(),
        old(state)@.playlist.is_full() ==> old(state).playlist.media_sequence < u64::MAX,
    ensures
        final(state).wf(),
        exists|t: int|
            i64::MIN <= t <= i64::MAX && final(state)@ == #[trigger] old(state)@.update(
                t,
                new_segment_data@,
            ) && removal_view(removal) == old(state)@.scheduled_removal(t),
{
    let now = current_time_millis();
    let removal = update_playlist_at(state, now, new_segment_data);
    assert(state@ == old(state)@.update(now as int, new_segment_data@));
    removal
}

/// Adds the segment created at `timestamp_millis` to the playlist and updates the playlist
/// document and the segment data accordingly.
///
/// The payload is stored behind the timing tag for the current presentation timestamp,
/// and the clock then advances by the availability window of the new window. Returns
/// the segment whose bytes are to be removed, and after what delay, if the addition
/// pushed a segment out of the window.
pub fn update_playlist_at(
    state: &mut HLSState,
    timestamp_millis: i64,
    new_segment_data: Vec<u8>,
) -> (removal: Option<ScheduledRemoval>)
    requires
        old(state).wf(),
        old(state)@.playlist.is_full() ==> old(state).playlist.media_sequence < u64::MAX,
    ensures
        final(state).wf(),
        final(state)@ == old(state)@.update(timestamp_millis as int, new_segment_data@),
        removal_view(removal) == old(state)@.scheduled_removal(timestamp_millis as int),
{
    let (added, removed) = state.playlist.add_segment_at(timestamp_millis);
    let tagged = tag_segment(state.timestamp, new_segment_data);
    state.segment_data.insert(added, tagged);
    state.media_playlist = state.playlist.generate_playlist();

    let window_ms = state.availability_window_ms();
    state.timestamp = advance_timestamp(state.timestamp, window_ms);

    proof {
        let before = old(state)@;
        let after = before.update(timestamp_millis as int, new_segment_data@);
        assert(state@.playlist == after.playlist);
        assert(state@.media_playlist == after.media_playlist);
        assert(state@.segment_data =~= after.segment_data);
        assert(after.availability_window_ms() == window_ms);
        assert(state@.timestamp == after.timestamp);
        assert(before.update(timestamp_millis as int, Seq::empty()).availability_window_ms()
            == after.availability_window_ms());
        lemma_update_keeps_wf(before, timestamp_millis as int, new_segment_data@);
    }
    match removed {
        Some(name) => Some(ScheduledRemoval { name, delay_ms: window_ms }),
        None => None,
    }
}

/// Adding a segment keeps a state well formed: in particular the store then holds the
/// bytes of every segment that the playlist names.
pub proof fn lemma_update_keeps_wf(state: StateView, timestamp_millis: int, payload: Seq<u8>)
    requires
        state.wf(),
    ensures
        state.update(timestamp_millis, payload).wf(),
{
    let after = state.update(timestamp_millis, payload);
    let name = state.playlist.config.segment_name(timestamp_millis);
    let base = state.playlist.config.uri;
    lemma_add_segment_keeps_wf(state.playlist, timestamp_millis);
    assert forall|i: int| 0 <= i < after.playlist.segments.len() implies after.segment_data.contains_key(
        #[trigger] after.playlist.segment_name_at(i),
    ) by {
        if i == after.playlist.segments.len() - 1 {
            assert(after.playlist.segments[i].uri == base + name);
            assert((base + name).skip(base.len() as int) =~= name);
        } else if state.playlist.is_full() {
            assert(after.playlist.segment_name_at(i) == state.playlist.segment_name_at(i + 1));
        } else {
            assert(after.playlist.segment_name_at(i) == state.playlist.segment_name_at(i));
        }
    }
    assert(state.timestamp + after.availability_window_ms() * 90 >= 0) by (nonlinear_arith)
        requires
            state.timestamp >= 0,
            after.availability_window_ms() >= 0,
    ;
}

/// The bytes stored for a segment begin with a timing tag that announces exactly the
/// presentation timestamp that was current when the segment was added, and the clock has
/// moved on by the availability window of the new window.
pub proof fn lemma_stored_segment_announces_timestamp(
    state: StateView,
    timestamp_millis: int,
    payload: Seq<u8>,
)
    requires
        state.wf(),
    ensures
        ({
            let after = state.update(timestamp_millis, payload);
            let name = state.playlist.config.segment_name(timestamp_millis);
            &&& after.segment_data.contains_key(name)
            &&& after.segment_data[name] == timing_tag_bytes(state.timestamp as u64) + payload
            &&& read_timing_tag(after.segment_data[name]) == Some(state.timestamp as u64)
            &&& after.timestamp == next_timestamp(state.timestamp, after.availability_window_ms())
        }),
{
    lemma_timing_tag_round_trip(state.timestamp as u64, payload);
}

/// Removing the bytes of a segment that the playlist no longer names keeps a state well
/// formed.
pub proof fn lemma_removal_keeps_wf(state: StateView, name: Seq<char>)
    requires
        state.wf(),
        !state.playlist.contains_name(name),
    ensures
        state.remove_segment(name).wf(),
{
    let after = state.remove_segment(name);
    assert forall|i: int| 0 <= i < after.playlist.segments.len() implies after.segment_data.contains_key(
        #[trigger] after.playlist.segment_name_at(i),
    ) by {
        assert(state.segment_data.contains_key(state.playlist.segment_name_at(i)));
    }
}

} // verus!
