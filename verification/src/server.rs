//! What each request is answered with.
//!
//! The playlist document is served under one fixed path and every stored segment under
//! its own name. Anything else, and any method but `GET`, is answered with "not found".

use vstd::prelude::*;
use vstd::string::*;

use crate::m3u8::{ConfigView, DocumentView, PlaylistDocument, PlaylistView, PLAYLIST_VERSION};
use crate::playback::{HLSState, StateView};
use crate::timing::timing_tag_bytes;
use crate::text::{same_text, skip_chars, starts_with};

verus! {

/// The answer to a request.
#[derive(Debug, PartialEq, Eq)]
pub enum Reply {
    /// The current playlist document.
    Playlist(PlaylistDocument),
    /// The tagged bytes of a segment.
    Segment(Vec<u8>),
    /// Nothing is served under the path asked for.
    NotFound,
}

/// An answer as mathematical values.
pub enum ReplyView {
    Playlist(DocumentView),
    Segment(Seq<u8>),
    NotFound,
}

impl ReplyView {
    /// The HTTP status that goes with the answer.
    pub open spec fn status(self) -> nat {
        match self {
            ReplyView::NotFound => 404,
            _ => 200,
        }
    }
}

impl Reply {
    /// The HTTP status that goes with the answer: 404 for "not found", 200 otherwise.
    pub fn status(&self) -> (code: u16)
        ensures
            code == self@.status(),
    {
        match self {
            Reply::NotFound => 404,
            _ => 200,
        }
    }
}

impl View for Reply {
    type V = ReplyView;

    open spec fn view(&self) -> ReplyView {
        match self {
            Reply::Playlist(document) => ReplyView::Playlist(document@),
            Reply::Segment(bytes) => ReplyView::Segment(bytes@),
            Reply::NotFound => ReplyView::NotFound,
        }
    }
}

/// The only method that is served.
pub open spec fn get_method() -> Seq<char> {
    seq!['G', 'E', 'T']
}

/// The path of the playlist document.
pub open spec fn playlist_path() -> Seq<char> {
    seq!['/', 's', 't', 'r', 'e', 'a', 'm', '.', 'm', '3', 'u', '8']
}

/// What the path of every segment begins with.
pub open spec fn segment_path_prefix() -> Seq<char> {
    seq!['/', 's', 'e', 'g', 'm', 'e', 'n', 't', '-']
}

/// The answer that `state` gives to a request for `uri` with `method`.
///
/// A segment is looked up under the path exactly as it was asked for, without its
/// leading slash.
pub open spec fn route(state: StateView, method: Seq<char>, uri: Seq<char>) -> ReplyView {
    if method != get_method() {
        ReplyView::NotFound
    } else if uri == playlist_path() {
        ReplyView::Playlist(state.media_playlist)
    } else if segment_path_prefix().is_prefix_of(uri) && state.segment_data.contains_key(
        uri.skip(1),
    ) {
        ReplyView::Segment(state.segment_data[uri.skip(1)])
    } else {
        ReplyView::NotFound
    }
}

/// Serves the playlist and the audio segments: decides what a request for `uri` with
/// `method` is answered with.
pub fn serve_playlist(method: &str, uri: &str, state: &HLSState) -> (reply: Reply)
    ensures
        reply@ == route(state@, method@, uri@),
{
    proof {
        reveal_strlit("GET");
        reveal_strlit("/stream.m3u8");
        reveal_strlit("/segment-");
        assert("GET"@ =~= get_method());
        assert("/stream.m3u8"@ =~= playlist_path());
        assert("/segment-"@ =~= segment_path_prefix());
    }
    if !same_text(method, "GET") {
        Reply::NotFound
    } else if same_text(uri, "/stream.m3u8") {
        Reply::Playlist(state.media_playlist.clone())
    } else if starts_with(uri, "/segment-") {
        let name = skip_chars(uri, 1);
        match state.segment_data.get(name) {
            Some(segment) => Reply::Segment(segment.clone()),
            None => Reply::NotFound,
        }
    } else {
        Reply::NotFound
    }
}

/// Before its first segment a stream serves a playlist document with media sequence
/// zero and no entry.
pub proof fn lemma_new_stream_serves_empty_playlist(config: ConfigView)
    ensures
        route(StateView::new(PlaylistView::new(config)), get_method(), playlist_path())
            == ReplyView::Playlist(
            DocumentView {
                version: PLAYLIST_VERSION as nat,
                target_duration: config.target_duration(),
                media_sequence: 0,
                segments: Seq::empty(),
            },
        ),
{
}

/// A segment that has just been added is served, under its name after a slash, as
/// exactly the bytes stored for it: the timing tag for the timestamp that was current,
/// then the payload.
pub proof fn lemma_added_segment_is_served(
    state: StateView,
    timestamp_millis: int,
    payload: Seq<u8>,
)
    ensures
        route(
            state.update(timestamp_millis, payload),
            get_method(),
            seq!['/'] + state.playlist.config.segment_name(timestamp_millis),
        ) == ReplyView::Segment(timing_tag_bytes(state.timestamp as u64) + payload),
{
    let name = state.playlist.config.segment_name(timestamp_millis);
    let uri = seq!['/'] + name;
    assert(uri.skip(1) =~= name);
    assert(uri.subrange(0, segment_path_prefix().len() as int) =~= segment_path_prefix());
    assert(uri != playlist_path()) by {
        assert(uri[2] == 'e');
        assert(playlist_path()[2] == 't');
    }
}

/// A path that names no stored segment, and is not the playlist's, is answered with
/// "not found", whatever the method.
pub proof fn lemma_unknown_segment_is_not_found(state: StateView, method: Seq<char>, uri: Seq<char>)
    requires
        uri != playlist_path(),
        !state.segment_data.contains_key(uri.skip(1)),
    ensures
        route(state, method, uri) == ReplyView::NotFound,
{
}

} // verus!
