//! The sliding window of segments and the playlist document drawn from it.
//!
//! Durations are whole milliseconds throughout, so that every quantity derived
//! from them is exact.

use std::collections::VecDeque;

use vstd::prelude::*;
use vstd::string::*;

use crate::decimal::{decimal, decimal_string, lemma_decimal_injective};
use crate::text::{same_text, skip_chars, starts_with};

verus! {

/// The protocol version that every playlist document announces.
pub const PLAYLIST_VERSION: usize = 3;

/// The characters that every segment name begins with.
pub open spec fn segment_prefix() -> Seq<char> {
    seq!['s', 'e', 'g', 'm', 'e', 'n', 't', '-']
}

/// HLS configuration, fixed for the lifetime of a playlist.
#[derive(Debug, PartialEq, Eq)]
pub struct HLSConfig {
    /// The number of segments that are kept in the playlist.
    pub segments_to_keep: usize,
    /// Segment duration in milliseconds.
    pub segment_duration_ms: u64,
    /// Public URI of the form `https://example.com:6969/`, where the port is optional and the
    /// trailing slash is not.
    pub uri: String,
    /// The file extension of the segments served, for example `.aac`.
    pub file_extension: String,
}

/// What a configuration says, as mathematical values.
pub struct ConfigView {
    pub segments_to_keep: nat,
    pub segment_duration_ms: nat,
    pub uri: Seq<char>,
    pub file_extension: Seq<char>,
}

impl ConfigView {
    /// At least one segment is kept, a segment lasts some time, and the longest time a
    /// window can span still fits the machine's 64-bit counters.
    pub open spec fn wf(self) -> bool {
        &&& self.segments_to_keep >= 1
        &&& self.segment_duration_ms >= 1
        &&& (1 + self.segments_to_keep) * self.segment_duration_ms <= u64::MAX
    }

    /// The name of the segment created at `timestamp_millis`.
    pub open spec fn segment_name(self, timestamp_millis: int) -> Seq<char> {
        segment_prefix() + decimal(timestamp_millis) + self.file_extension
    }

    /// The window entry for the segment called `name`.
    pub open spec fn segment(self, name: Seq<char>) -> SegmentView {
        SegmentView { uri: self.uri + name, duration_ms: self.segment_duration_ms }
    }

    /// The segment duration in whole seconds, rounded up.
    pub open spec fn target_duration(self) -> nat {
        if self.segment_duration_ms % 1000 == 0 {
            self.segment_duration_ms / 1000
        } else {
            self.segment_duration_ms / 1000 + 1
        }
    }
}

impl View for HLSConfig {
    type V = ConfigView;

    open spec fn view(&self) -> ConfigView {
        ConfigView {
            segments_to_keep: self.segments_to_keep as nat,
            segment_duration_ms: self.segment_duration_ms as nat,
            uri: self.uri@,
            file_extension: self.file_extension@,
        }
    }
}

impl HLSConfig {
    /// Whether the configuration is well formed.
    pub fn is_well_formed(&self) -> (ok: bool)
        ensures
            ok == self@.wf(),
    {
        if self.segments_to_keep < 1 || self.segment_duration_ms < 1 {
            return false;
        }
        let keep = self.segments_to_keep as u64;
        let spans = match keep.checked_add(1) {
            Some(windows) => windows.checked_mul(self.segment_duration_ms),
            None => None,
        };
        proof {
            if keep == u64::MAX {
                assert((1 + keep) * self.segment_duration_ms > u64::MAX) by (nonlinear_arith)
                    requires
                        keep == u64::MAX,
                        self.segment_duration_ms >= 1,
                ;
            }
        }
        spans.is_some()
    }

    /// The segment duration in whole seconds, rounded up.
    pub fn target_duration(&self) -> (seconds: u64)
        ensures
            seconds == self@.target_duration(),
    {
        let whole_seconds = self.segment_duration_ms / 1000;
        if self.segment_duration_ms % 1000 == 0 {
            whole_seconds
        } else {
            whole_seconds + 1
        }
    }
}

/// One entry of the window: where the segment is fetched from and how long it plays.
#[derive(Debug, PartialEq, Eq)]
pub struct Segment {
    /// Absolute URI: the configured base URI followed by the segment's name.
    pub uri: String,
    /// Duration in milliseconds.
    pub duration_ms: u64,
}

/// A window entry as mathematical values.
pub struct SegmentView {
    pub uri: Seq<char>,
    pub duration_ms: nat,
}

impl View for Segment {
    type V = SegmentView;

    open spec fn view(&self) -> SegmentView {
        SegmentView { uri: self.uri@, duration_ms: self.duration_ms as nat }
    }
}

impl Clone for Segment {
    fn clone(&self) -> (copy: Segment)
        ensures
            copy@ == self@,
    {
        Segment { uri: self.uri.clone(), duration_ms: self.duration_ms }
    }
}

/// The views of a sequence of segments, in the same order.
pub open spec fn segment_views(segments: Seq<Segment>) -> Seq<SegmentView> {
    Seq::new(segments.len(), |i: int| segments[i]@)
}

/// What an optional string holds.
pub open spec fn option_view(s: Option<String>) -> Option<Seq<char>> {
    match s {
        Some(s) => Some(s@),
        None => None,
    }
}

/// A playlist document before it is written out as text: the fields of a media playlist
/// that this crate fills in. Every other field of the format is left at its default.
#[derive(Debug, PartialEq, Eq)]
pub struct PlaylistDocument {
    /// `EXT-X-VERSION`
    pub version: usize,
    /// `EXT-X-TARGETDURATION`, in whole seconds.
    pub target_duration: u64,
    /// `EXT-X-MEDIA-SEQUENCE`
    pub media_sequence: u64,
    /// One entry per segment, oldest first.
    pub segments: Vec<Segment>,
}

/// A playlist document as mathematical values.
pub struct DocumentView {
    pub version: nat,
    pub target_duration: nat,
    pub media_sequence: nat,
    pub segments: Seq<SegmentView>,
}

impl View for PlaylistDocument {
    type V = DocumentView;

    open spec fn view(&self) -> DocumentView {
        DocumentView {
            version: self.version as nat,
            target_duration: self.target_duration as nat,
            media_sequence: self.media_sequence as nat,
            segments: segment_views(self.segments@),
        }
    }
}

impl Clone for PlaylistDocument {
    fn clone(&self) -> (copy: PlaylistDocument)
        ensures
            copy@ == self@,
    {
        let mut segments: Vec<Segment> = Vec::new();
        let mut i: usize = 0;
        while i < self.segments.len()
            invariant
                i <= self.segments@.len(),
                segments@.len() == i,
                forall|j: int| 0 <= j < i ==> segments@[j]@ == self.segments@[j]@,
            decreases self.segments@.len() - i,
        {
            segments.push(self.segments[i].clone());
            i = i + 1;
        }
        let copy = PlaylistDocument {
            version: self.version,
            target_duration: self.target_duration,
            media_sequence: self.media_sequence,
            segments,
        };
        assert(copy@.segments =~= self@.segments);
        copy
    }
}

/// Stores the state of the playlist.
#[derive(Debug)]
pub struct Playlist {
    /// `EXT-X-MEDIA-SEQUENCE`: the number of segments that have left the window.
    pub media_sequence: u64,
    /// The window, oldest segment first.
    pub segments: VecDeque<Segment>,
    pub config: HLSConfig,
}

/// The state of a playlist as mathematical values.
pub struct PlaylistView {
    pub media_sequence: nat,
    pub segments: Seq<SegmentView>,
    pub config: ConfigView,
}

impl PlaylistView {
    /// The playlist that has seen no segment yet.
    pub open spec fn new(config: ConfigView) -> PlaylistView {
        PlaylistView { media_sequence: 0, segments: Seq::empty(), config }
    }

    /// The configuration is well formed, the window holds no more segments than it keeps,
    /// and every URI in it extends the base URI.
    pub open spec fn wf(self) -> bool {
        &&& self.config.wf()
        &&& self.segments.len() <= self.config.segments_to_keep
        &&& forall|i: int|
            0 <= i < self.segments.len() ==> self.config.uri.is_prefix_of(
                #[trigger] self.segments[i].uri,
            )
    }

    /// Whether the next segment pushes the oldest one out.
    pub open spec fn is_full(self) -> bool {
        self.segments.len() >= self.config.segments_to_keep
    }

    /// The name of the `i`-th segment of the window: what follows the base URI in its URI.
    pub open spec fn segment_name_at(self, i: int) -> Seq<char> {
        self.segments[i].uri.skip(self.config.uri.len() as int)
    }

    /// Whether some segment of the window is called `name`.
    pub open spec fn contains_name(self, name: Seq<char>) -> bool {
        exists|i: int| 0 <= i < self.segments.len() && self.segment_name_at(i) == name
    }

    /// No two segments of the window share a name.
    pub open spec fn names_distinct(self) -> bool {
        forall|i: int, j: int|
            0 <= i < j < self.segments.len() ==> self.segment_name_at(i) != self.segment_name_at(j)
    }

    /// The name of the segment that the next addition pushes out, if it pushes one out.
    pub open spec fn evicted(self) -> Option<Seq<char>> {
        if self.is_full() {
            Some(self.segment_name_at(0))
        } else {
            None
        }
    }

    /// The playlist after a segment created at `timestamp_millis` has been added.
    pub open spec fn add_segment(self, timestamp_millis: int) -> PlaylistView {
        let added = self.config.segment(self.config.segment_name(timestamp_millis));
        if self.is_full() {
            PlaylistView {
                media_sequence: self.media_sequence + 1,
                segments: self.segments.drop_first().push(added),
                config: self.config,
            }
        } else {
            PlaylistView {
                media_sequence: self.media_sequence,
                segments: self.segments.push(added),
                config: self.config,
            }
        }
    }

    /// The playlist after one segment has been added for each of `timestamps`, in order.
    pub open spec fn add_segments(self, timestamps: Seq<int>) -> PlaylistView
        decreases timestamps.len(),
    {
        if timestamps.len() == 0 {
            self
        } else {
            self.add_segments(timestamps.drop_last()).add_segment(timestamps.last())
        }
    }

    /// The document that describes the playlist in its current state.
    pub open spec fn document(self) -> DocumentView {
        DocumentView {
            version: PLAYLIST_VERSION as nat,
            target_duration: self.config.target_duration(),
            media_sequence: self.media_sequence,
            segments: self.segments,
        }
    }
}

impl View for Playlist {
    type V = PlaylistView;

    open spec fn view(&self) -> PlaylistView {
        PlaylistView {
            media_sequence: self.media_sequence as nat,
            segments: segment_views(self.segments@),
            config: self.config@,
        }
    }
}

/// Reads the clock through `chrono::Utc::now` and `DateTime::timestamp_millis`: the
/// milliseconds since the Unix epoch. Nothing is claimed of the value.
#[verifier::external_body]
pub(crate) fn current_time_millis() -> i64 {
    chrono::Utc::now().timestamp_millis()
}

/// Builds the name of the segment created at `timestamp_millis`.
pub fn segment_name(timestamp_millis: i64, file_extension: &str) -> (name: String)
    ensures
        name@ == segment_prefix() + decimal(timestamp_millis as int) + file_extension@,
{
    proof {
        reveal_strlit("segment-");
    }
    let mut name = String::from_str("segment-");
    assert(name@ =~= segment_prefix());
    let digits = decimal_string(timestamp_millis);
    name.append(digits.as_str());
    name.append(file_extension);
    name
}

impl Playlist {
    /// The invariant that every operation on a playlist keeps.
    pub open spec fn wf(&self) -> bool {
        self@.wf()
    }

    /// Whether the playlist is well formed.
    pub fn is_well_formed(&self) -> (ok: bool)
        ensures
            ok == self.wf(),
    {
        if !self.config.is_well_formed() || self.segments.len() > self.config.segments_to_keep {
            return false;
        }
        let mut i: usize = 0;
        while i < self.segments.len()
            invariant
                i <= self.segments@.len(),
                forall|j: int|
                    0 <= j < i ==> self@.config.uri.is_prefix_of(#[trigger] self@.segments[j].uri),
            decreases self.segments@.len() - i,
        {
            if !starts_with(self.segments[i].uri.as_str(), self.config.uri.as_str()) {
                assert(!self@.config.uri.is_prefix_of(self@.segments[i as int].uri));
                return false;
            }
            i = i + 1;
        }
        true
    }

    /// Whether `document` describes the playlist in its current state.
    pub fn is_described_by(&self, document: &PlaylistDocument) -> (ok: bool)
        ensures
            ok == (document@ == self@.document()),
    {
        if document.version != PLAYLIST_VERSION || document.target_duration
            != self.config.target_duration() || document.media_sequence != self.media_sequence
            || document.segments.len() != self.segments.len() {
            assert(document@.segments.len() == document.segments@.len());
            assert(self@.document().segments.len() == self.segments@.len());
            return false;
        }
        let mut i: usize = 0;
        while i < self.segments.len()
            invariant
                i <= self.segments@.len(),
                document.segments@.len() == self.segments@.len(),
                forall|j: int| 0 <= j < i ==> document@.segments[j] == self@.segments[j],
            decreases self.segments@.len() - i,
        {
            let listed = &document.segments[i];
            let kept = &self.segments[i];
            if listed.duration_ms != kept.duration_ms || !same_text(
                listed.uri.as_str(),
                kept.uri.as_str(),
            ) {
                assert(document@.segments[i as int] != self@.segments[i as int]);
                return false;
            }
            i = i + 1;
        }
        assert(document@.segments =~= self@.segments);
        true
    }

    /// Create a new playlist with a given config.
    pub fn new(config: HLSConfig) -> (playlist: Playlist)
        ensures
            playlist@ == PlaylistView::new(config@),
            playlist.config == config,
    {
        let playlist = Playlist { media_sequence: 0, segments: VecDeque::new(), config };
        assert(playlist@.segments =~= Seq::empty());
        playlist
    }

    /// Add a new segment to the playlist and remove an old one if necessary.
    ///
    /// The segment is named after the current time. Returns the name of the segment just
    /// added and, if the window was full, the name of the segment that left it.
    pub fn add_segment(&mut self) -> (res: (String, Option<String>))
        requires
            old(self).wf(),
            old(self)@.is_full() ==> old(self).media_sequence < u64::MAX,
        ensures
            final(self).wf(),
            final(self).config == old(self).config,
            option_view(res.1) == old(self)@.evicted(),
            exists|t: int|
                i64::MIN <= t <= i64::MAX && final(self)@ == #[trigger] old(self)@.add_segment(t)
                    && res.0@ == old(self)@.config.segment_name(t),
    {
        let now = current_time_millis();
        let res = self.add_segment_at(now);
        assert(self@ == old(self)@.add_segment(now as int));
        res
    }

    /// Add the segment created at `timestamp_millis` to the playlist and remove the oldest
    /// one if the window is full.
    ///
    /// Returns the name of the segment just added and, if the window was full, the name of
    /// the segment that left it.
    pub fn add_segment_at(&mut self, timestamp_millis: i64) -> (res: (String, Option<String>))
        requires
            old(self).wf(),
            old(self)@.is_full() ==> old(self).media_sequence < u64::MAX,
        ensures
            final(self).wf(),
            final(self).config == old(self).config,
            final(self)@ == old(self)@.add_segment(timestamp_millis as int),
            res.0@ == old(self)@.config.segment_name(timestamp_millis as int),
            option_view(res.1) == old(self)@.evicted(),
    {
        let removed = if self.segments.len() >= self.config.segments_to_keep {
            match self.segments.pop_front() {
                Some(oldest) => {
                    self.media_sequence = self.media_sequence + 1;
                    assert(oldest@ == old(self)@.segments[0]);
                    let base_len = self.config.uri.as_str().unicode_len();
                    Some(String::from_str(skip_chars(oldest.uri.as_str(), base_len)))
                },
                None => None,
            }
        } else {
            None
        };
        let name = segment_name(timestamp_millis, self.config.file_extension.as_str());
        let uri = self.config.uri.clone().concat(name.as_str());
        let added = Segment { uri, duration_ms: self.config.segment_duration_ms };
        proof {
            let before = old(self)@;
            assert(added@ == before.config.segment(before.config.segment_name(timestamp_millis as int)));
            assert(before.config.uri.is_prefix_of(added@.uri));
            if before.is_full() {
                assert(segment_views(self.segments@.push(added)) =~= before.segments.drop_first().push(
                    added@,
                ));
            } else {
                assert(segment_views(self.segments@.push(added)) =~= before.segments.push(added@));
            }
        }
        self.segments.push_back(added);
        (name, removed)
    }

    /// Generate the playlist document for the current state.
    pub fn generate_playlist(&self) -> (document: PlaylistDocument)
        ensures
            document@ == self@.document(),
    {
        let target_duration = self.config.target_duration();
        let mut segments: Vec<Segment> = Vec::new();
        let mut i: usize = 0;
        while i < self.segments.len()
            invariant
                i <= self.segments@.len(),
                segments@.len() == i,
                forall|j: int| 0 <= j < i ==> segments@[j]@ == self.segments@[j]@,
            decreases self.segments@.len() - i,
        {
            segments.push(self.segments[i].clone());
            i = i + 1;
        }
        let document = PlaylistDocument {
            version: PLAYLIST_VERSION,
            target_duration,
            media_sequence: self.media_sequence,
            segments,
        };
        assert(document@.segments =~= self@.segments);
        document
    }
}

/// Adding a segment keeps a playlist well formed and leaves its configuration alone.
pub proof fn lemma_add_segment_keeps_wf(playlist: PlaylistView, timestamp_millis: int)
    requires
        playlist.wf(),
    ensures
        playlist.add_segment(timestamp_millis).wf(),
        playlist.add_segment(timestamp_millis).config == playlist.config,
{
    let after = playlist.add_segment(timestamp_millis);
    let added = playlist.config.segment(playlist.config.segment_name(timestamp_millis));
    assert(playlist.config.uri.is_prefix_of(added.uri));
    assert forall|i: int| 0 <= i < after.segments.len() implies playlist.config.uri.is_prefix_of(
        #[trigger] after.segments[i].uri,
    ) by {
        if playlist.is_full() {
            if i < after.segments.len() - 1 {
                assert(after.segments[i] == playlist.segments[i + 1]);
            }
        } else {
            if i < after.segments.len() - 1 {
                assert(after.segments[i] == playlist.segments[i]);
            }
        }
    }
}

/// However many segments are added to a well-formed playlist, the window never holds
/// more of them than the configuration keeps.
pub proof fn lemma_window_never_exceeds_limit(playlist: PlaylistView, timestamps: Seq<int>)
    requires
        playlist.wf(),
    ensures
        playlist.add_segments(timestamps).wf(),
        playlist.add_segments(timestamps).config == playlist.config,
        playlist.add_segments(timestamps).segments.len() <= playlist.config.segments_to_keep,
    decreases timestamps.len(),
{
    if timestamps.len() > 0 {
        lemma_window_never_exceeds_limit(playlist, timestamps.drop_last());
        lemma_add_segment_keeps_wf(playlist.add_segments(timestamps.drop_last()), timestamps.last());
    }
}

/// One addition raises the media sequence by exactly one if it pushes a segment out of
/// the window, and leaves it as it was if it does not.
pub proof fn lemma_media_sequence_step(playlist: PlaylistView, timestamp_millis: int)
    ensures
        playlist.evicted() is Some ==> playlist.add_segment(timestamp_millis).media_sequence
            == playlist.media_sequence + 1,
        playlist.evicted() is None ==> playlist.add_segment(timestamp_millis).media_sequence
            == playlist.media_sequence,
{
}

/// Over any run of additions the media sequence never decreases, and it counts the
/// segments that have left the window: each segment added is either still in the window
/// or counted.
pub proof fn lemma_media_sequence_counts_evictions(playlist: PlaylistView, timestamps: Seq<int>)
    requires
        playlist.wf(),
    ensures
        playlist.add_segments(timestamps).media_sequence >= playlist.media_sequence,
        playlist.add_segments(timestamps).media_sequence + playlist.add_segments(
            timestamps,
        ).segments.len() == playlist.media_sequence + playlist.segments.len() + timestamps.len(),
    decreases timestamps.len(),
{
    if timestamps.len() > 0 {
        lemma_media_sequence_counts_evictions(playlist, timestamps.drop_last());
        lemma_window_never_exceeds_limit(playlist, timestamps.drop_last());
    }
}

/// Segments created at different times get different names.
pub proof fn lemma_segment_names_distinct(config: ConfigView, first: int, second: int)
    requires
        first != second,
    ensures
        config.segment_name(first) != config.segment_name(second),
{
    let a = decimal(first);
    let b = decimal(second);
    let name_a = config.segment_name(first);
    let name_b = config.segment_name(second);
    if name_a == name_b {
        assert(name_a.len() == segment_prefix().len() + a.len() + config.file_extension.len());
        assert(name_b.len() == segment_prefix().len() + b.len() + config.file_extension.len());
        assert forall|i: int| 0 <= i < a.len() implies a[i] == b[i] by {
            assert(name_a[segment_prefix().len() + i] == a[i]);
            assert(name_b[segment_prefix().len() + i] == b[i]);
        }
        assert(a =~= b);
        lemma_decimal_injective(first, second);
    }
}

/// The number of segments in the window after `added` additions to a new playlist that
/// keeps `segments_to_keep` of them.
pub open spec fn kept_after(added: nat, segments_to_keep: nat) -> nat {
    if added <= segments_to_keep {
        added
    } else {
        segments_to_keep
    }
}

/// After any run of additions to a new playlist, the window holds the segments added
/// last, oldest first, as many as are kept, and the media sequence counts the others.
pub proof fn lemma_window_holds_latest_segments(config: ConfigView, timestamps: Seq<int>)
    requires
        config.wf(),
    ensures
        ({
            let playlist = PlaylistView::new(config).add_segments(timestamps);
            let kept = kept_after(timestamps.len(), config.segments_to_keep);
            &&& playlist.config == config
            &&& playlist.segments.len() == kept
            &&& playlist.media_sequence == timestamps.len() - kept
            &&& forall|i: int|
                0 <= i < kept ==> #[trigger] playlist.segments[i] == config.segment(
                    config.segment_name(timestamps[timestamps.len() - kept + i]),
                )
            &&& forall|i: int|
                0 <= i < kept ==> #[trigger] playlist.segment_name_at(i) == config.segment_name(
                    timestamps[timestamps.len() - kept + i],
                )
        }),
    decreases timestamps.len(),
{
    let playlist = PlaylistView::new(config).add_segments(timestamps);
    let kept = kept_after(timestamps.len(), config.segments_to_keep);
    if timestamps.len() > 0 {
        let earlier = timestamps.drop_last();
        let before = PlaylistView::new(config).add_segments(earlier);
        let kept_before = kept_after(earlier.len(), config.segments_to_keep);
        lemma_window_holds_latest_segments(config, earlier);
        assert(playlist == before.add_segment(timestamps.last()));
        assert forall|i: int| 0 <= i < kept implies #[trigger] playlist.segments[i]
            == config.segment(config.segment_name(timestamps[timestamps.len() - kept + i])) by {
            if i < kept - 1 {
                if before.is_full() {
                    assert(playlist.segments[i] == before.segments[i + 1]);
                    assert(earlier[earlier.len() - kept_before + (i + 1)] == timestamps[timestamps.len()
                        - kept + i]);
                } else {
                    assert(playlist.segments[i] == before.segments[i]);
                    assert(earlier[earlier.len() - kept_before + i] == timestamps[timestamps.len()
                        - kept + i]);
                }
            }
        }
        assert forall|i: int| 0 <= i < kept implies #[trigger] playlist.segment_name_at(i)
            == config.segment_name(timestamps[timestamps.len() - kept + i]) by {
            let name = config.segment_name(timestamps[timestamps.len() - kept + i]);
            assert(playlist.segments[i] == config.segment(name));
            assert((config.uri + name).skip(config.uri.len() as int) =~= name);
        }
    }
}

/// On a clock that never gives the same time twice, no two segments of the window share
/// a name.
pub proof fn lemma_distinct_times_give_distinct_names(config: ConfigView, timestamps: Seq<int>)
    requires
        config.wf(),
        forall|i: int, j: int|
            0 <= i < j < timestamps.len() ==> timestamps[i] != timestamps[j],
    ensures
        PlaylistView::new(config).add_segments(timestamps).names_distinct(),
{
    let playlist = PlaylistView::new(config).add_segments(timestamps);
    let kept = kept_after(timestamps.len(), config.segments_to_keep);
    lemma_window_holds_latest_segments(config, timestamps);
    assert forall|i: int, j: int| 0 <= i < j < playlist.segments.len() implies playlist.segment_name_at(
        i,
    ) != playlist.segment_name_at(j) by {
        let first = timestamps[timestamps.len() - kept + i];
        let second = timestamps[timestamps.len() - kept + j];
        assert(playlist.segment_name_at(i) == config.segment_name(first));
        assert(playlist.segment_name_at(j) == config.segment_name(second));
        lemma_segment_names_distinct(config, first, second);
    }
}

/// If the names in the window differ from one another and from the name of the segment
/// being added, they still do afterwards, and the window no longer names the segment
/// that left it.
pub proof fn lemma_evicted_segment_leaves_window(playlist: PlaylistView, timestamp_millis: int)
    requires
        playlist.wf(),
        playlist.names_distinct(),
        !playlist.contains_name(playlist.config.segment_name(timestamp_millis)),
    ensures
        playlist.add_segment(timestamp_millis).names_distinct(),
        playlist.evicted() matches Some(name) ==> !playlist.add_segment(
            timestamp_millis,
        ).contains_name(name),
{
    let after = playlist.add_segment(timestamp_millis);
    let name = playlist.config.segment_name(timestamp_millis);
    let base = playlist.config.uri;
    let shift: int = if playlist.is_full() { 1 } else { 0 };
    let last = after.segments.len() - 1;
    assert((base + name).skip(base.len() as int) =~= name);
    assert(after.segment_name_at(last) == name);
    assert forall|i: int| 0 <= i < last implies after.segment_name_at(i)
        == playlist.segment_name_at(i + shift) by {
        assert(after.segments[i] == playlist.segments[i + shift]);
    }
    assert forall|i: int, j: int| 0 <= i < j < after.segments.len() implies after.segment_name_at(i)
        != after.segment_name_at(j) by {
        assert(after.segment_name_at(i) == playlist.segment_name_at(i + shift));
        if j < last {
            assert(after.segment_name_at(j) == playlist.segment_name_at(j + shift));
        }
    }
    if playlist.is_full() {
        let evicted = playlist.segment_name_at(0);
        assert forall|i: int| 0 <= i < after.segments.len() implies after.segment_name_at(i)
            != evicted by {
            if i < last {
                assert(after.segment_name_at(i) == playlist.segment_name_at(i + 1));
            }
        }
    }
}

} // verus!
