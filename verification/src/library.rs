//! Library sync: the rows stored from a library the client saves, and
//! what a stored library is answered with.
//!
//! A saved library holds tracks, playlists and radio stations. Each
//! section that is sent replaces the stored one; an item is stored only
//! with a non-empty id (and, for tracks and stations, a non-empty link);
//! missing fields get their defaults.

use vstd::prelude::*;

use crate::search::views;
use crate::tracks::{clone_opt, opt_view};

verus! {

broadcast use vstd::string::group_string_axioms;

// ---------------------------------------------------------------------------
// Defaults
// ---------------------------------------------------------------------------

pub const DEFAULT_GENRE: &'static str = "Music";

pub const DEFAULT_FORMAT: &'static str = "mp3";

pub const DEFAULT_COVER_TEXT: &'static str = "PL";

pub const DEFAULT_TRACK_IDS: &'static str = "[]";

pub const DEFAULT_STATION_GENRE: &'static str = "Radio";

/// The text of `o`, or `d` when there is none.
pub open spec fn text_or(o: Option<String>, d: Seq<char>) -> Seq<char> {
    match o {
        Some(s) => s@,
        None => d,
    }
}

pub open spec fn bool_or(o: Option<bool>, d: bool) -> bool {
    match o {
        Some(b) => b,
        None => d,
    }
}

/// A flag as stored: 1 for yes, 0 for no.
pub open spec fn flag_value(b: bool) -> i64 {
    if b {
        1
    } else {
        0
    }
}

fn text_or_of(o: &Option<String>, d: &str) -> (r: String)
    ensures
        r@ == text_or(*o, d@),
{
    match o {
        Some(s) => s.clone(),
        None => d.to_owned(),
    }
}

fn text_or_owned(o: Option<String>, d: &str) -> (r: String)
    ensures
        r@ == text_or(o, d@),
{
    match o {
        Some(s) => s,
        None => d.to_owned(),
    }
}

fn flag_of(o: Option<bool>, d: bool) -> (r: i64)
    ensures
        r == flag_value(bool_or(o, d)),
{
    let b = match o {
        Some(b) => b,
        None => d,
    };
    if b {
        1
    } else {
        0
    }
}

// ---------------------------------------------------------------------------
// Which items of a section are stored
// ---------------------------------------------------------------------------

/// The indices below `n` that `keep` admits, in order.
pub open spec fn kept(n: nat, keep: spec_fn(int) -> bool) -> Seq<int>
    decreases n,
{
    if n == 0 {
        Seq::empty()
    } else if keep(n - 1) {
        kept((n - 1) as nat, keep).push(n - 1)
    } else {
        kept((n - 1) as nat, keep)
    }
}

pub proof fn lemma_kept_bounds(n: nat, keep: spec_fn(int) -> bool)
    ensures
        forall|j: int| 0 <= j < kept(n, keep).len() ==> 0 <= #[trigger] kept(n, keep)[j] < n,
    decreases n,
{
    if n > 0 {
        lemma_kept_bounds((n - 1) as nat, keep);
        let prev = kept((n - 1) as nat, keep);
        assert forall|j: int| 0 <= j < kept(n, keep).len() implies 0 <= #[trigger] kept(n, keep)[j]
            < n by {
            if j < prev.len() {
                assert(kept(n, keep)[j] == prev[j]);
            }
        }
    }
}

/// Every index of `kept` is admitted, and every admitted index below `n`
/// is in it, in increasing order.
pub proof fn law_kept_exactly(n: nat, keep: spec_fn(int) -> bool)
    ensures
        forall|j: int| 0 <= j < kept(n, keep).len() ==> #[trigger] keep(kept(n, keep)[j]),
        forall|i: int| 0 <= i < n && #[trigger] keep(i) ==> kept(n, keep).contains(i),
        forall|j: int, k: int|
            0 <= j < k < kept(n, keep).len() ==> kept(n, keep)[j] < kept(n, keep)[k],
    decreases n,
{
    if n > 0 {
        law_kept_exactly((n - 1) as nat, keep);
        lemma_kept_bounds((n - 1) as nat, keep);
        let prev = kept((n - 1) as nat, keep);
        if keep(n - 1) {
            assert forall|i: int| 0 <= i < n && #[trigger] keep(i) implies kept(n, keep).contains(
                i,
            ) by {
                if i < n - 1 {
                    let j = choose|j: int| 0 <= j < prev.len() && prev[j] == i;
                    assert(kept(n, keep)[j] == i);
                } else {
                    assert(kept(n, keep)[prev.len() as int] == i);
                }
            }
        }
    }
}

// ---------------------------------------------------------------------------
// Tracks
// ---------------------------------------------------------------------------

/// A saved track as the client sent it; a field is `None` when it is
/// missing or of another JSON type. The duration, a float, stays with the
/// caller.
pub struct SyncTrack {
    pub id: Option<String>,
    pub title: Option<String>,
    pub artist: Option<String>,
    pub album: Option<String>,
    pub audio_url: Option<String>,
    pub cover_url: Option<String>,
    pub genre: Option<String>,
    pub format: Option<String>,
    pub bitrate: Option<String>,
    pub plays: Option<i64>,
    pub is_favorite: Option<bool>,
    pub is_live_stream: Option<bool>,
    pub is_local_upload: Option<bool>,
    pub playlist_only: Option<bool>,
    pub added_at: Option<String>,
}

/// A track row to store (without its duration).
pub struct TrackRow {
    pub id: String,
    pub title: String,
    pub artist: String,
    pub album: Option<String>,
    pub audio_url: String,
    pub cover_url: Option<String>,
    pub genre: String,
    pub format: String,
    pub bitrate: Option<String>,
    pub plays: i64,
    pub is_favorite: i64,
    pub is_live_stream: i64,
    pub is_local_upload: i64,
    pub playlist_only: i64,
    pub added_at: String,
}

/// A saved track is stored when it has an id and a link.
pub open spec fn keeps_track(t: SyncTrack) -> bool {
    text_or(t.id, ""@).len() > 0 && text_or(t.audio_url, ""@).len() > 0
}

/// `r` is the row stored for `t`.
pub open spec fn is_track_row(t: SyncTrack, r: TrackRow) -> bool {
    &&& r.id@ == text_or(t.id, ""@)
    &&& r.title@ == text_or(t.title, ""@)
    &&& r.artist@ == text_or(t.artist, ""@)
    &&& opt_view(r.album) == opt_view(t.album)
    &&& r.audio_url@ == text_or(t.audio_url, ""@)
    &&& opt_view(r.cover_url) == opt_view(t.cover_url)
    &&& r.genre@ == text_or(t.genre, DEFAULT_GENRE@)
    &&& r.format@ == text_or(t.format, DEFAULT_FORMAT@)
    &&& opt_view(r.bitrate) == opt_view(t.bitrate)
    &&& r.plays == (match t.plays {
        Some(p) => p,
        None => 0,
    })
    &&& r.is_favorite == flag_value(bool_or(t.is_favorite, false))
    &&& r.is_live_stream == flag_value(bool_or(t.is_live_stream, false))
    &&& r.is_local_upload == flag_value(bool_or(t.is_local_upload, false))
    &&& r.playlist_only == flag_value(bool_or(t.playlist_only, false))
    &&& r.added_at@ == text_or(t.added_at, ""@)
}

/// The row stored for one saved track; `None` when it is skipped.
pub fn track_row(t: &SyncTrack) -> (r: Option<TrackRow>)
    ensures
        r is Some <==> keeps_track(*t),
        r matches Some(row) ==> is_track_row(*t, row),
{
    let row = TrackRow {
        id: text_or_of(&t.id, ""),
        title: text_or_of(&t.title, ""),
        artist: text_or_of(&t.artist, ""),
        album: clone_opt(&t.album),
        audio_url: text_or_of(&t.audio_url, ""),
        cover_url: clone_opt(&t.cover_url),
        genre: text_or_of(&t.genre, DEFAULT_GENRE),
        format: text_or_of(&t.format, DEFAULT_FORMAT),
        bitrate: clone_opt(&t.bitrate),
        plays: match t.plays {
            Some(p) => p,
            None => 0,
        },
        is_favorite: flag_of(t.is_favorite, false),
        is_live_stream: flag_of(t.is_live_stream, false),
        is_local_upload: flag_of(t.is_local_upload, false),
        playlist_only: flag_of(t.playlist_only, false),
        added_at: text_or_of(&t.added_at, ""),
    };
    if row.id.as_str().is_empty() || row.audio_url.as_str().is_empty() {
        None
    } else {
        Some(row)
    }
}

pub open spec fn track_keeps(items: Seq<SyncTrack>) -> spec_fn(int) -> bool {
    |i: int| keeps_track(items[i])
}

/// The rows stored for a saved track list, each with the index of the
/// item it comes from (whose duration goes with it).
pub fn track_rows(items: &Vec<SyncTrack>) -> (r: Vec<(usize, TrackRow)>)
    ensures
        r@.len() == kept(items@.len(), track_keeps(items@)).len(),
        forall|j: int|
            0 <= j < r@.len() ==> {
                &&& (#[trigger] r@[j]).0 == kept(items@.len(), track_keeps(items@))[j]
                &&& is_track_row(items@[r@[j].0 as int], r@[j].1)
            },
{
    let ghost f = track_keeps(items@);
    let mut out: Vec<(usize, TrackRow)> = Vec::new();
    let mut i: usize = 0;
    while i < items.len()
        invariant
            i <= items.len(),
            f == track_keeps(items@),
            out@.len() == kept(i as nat, f).len(),
            forall|j: int|
                0 <= j < out@.len() ==> {
                    &&& (#[trigger] out@[j]).0 == kept(i as nat, f)[j]
                    &&& is_track_row(items@[out@[j].0 as int], out@[j].1)
                },
        decreases items.len() - i,
    {
        assert(f(i as int) == keeps_track(items@[i as int]));
        match track_row(&items[i]) {
            Some(row) => {
                out.push((i, row));
            },
            None => {},
        }
        i = i + 1;
    }
    out
}

// ---------------------------------------------------------------------------
// Playlists
// ---------------------------------------------------------------------------

/// A saved playlist as the client sent it; `track_ids_json` is the JSON
/// text of its `trackIds` value, whatever its type.
pub struct SyncPlaylist {
    pub id: Option<String>,
    pub title: Option<String>,
    pub description: Option<String>,
    pub cover_text: Option<String>,
    pub track_ids_json: Option<String>,
}

pub struct PlaylistRow {
    pub id: String,
    pub title: String,
    pub description: String,
    pub cover_text: String,
    pub track_ids_json: String,
}

pub open spec fn keeps_playlist(p: SyncPlaylist) -> bool {
    text_or(p.id, ""@).len() > 0
}

pub open spec fn is_playlist_row(p: SyncPlaylist, r: PlaylistRow) -> bool {
    &&& r.id@ == text_or(p.id, ""@)
    &&& r.title@ == text_or(p.title, ""@)
    &&& r.description@ == text_or(p.description, ""@)
    &&& r.cover_text@ == text_or(p.cover_text, DEFAULT_COVER_TEXT@)
    &&& r.track_ids_json@ == text_or(p.track_ids_json, DEFAULT_TRACK_IDS@)
}

/// The row stored for one saved playlist; `None` when it is skipped.
pub fn playlist_row(p: &SyncPlaylist) -> (r: Option<PlaylistRow>)
    ensures
        r is Some <==> keeps_playlist(*p),
        r matches Some(row) ==> is_playlist_row(*p, row),
{
    let row = PlaylistRow {
        id: text_or_of(&p.id, ""),
        title: text_or_of(&p.title, ""),
        description: text_or_of(&p.description, ""),
        cover_text: text_or_of(&p.cover_text, DEFAULT_COVER_TEXT),
        track_ids_json: text_or_of(&p.track_ids_json, DEFAULT_TRACK_IDS),
    };
    if row.id.as_str().is_empty() {
        None
    } else {
        Some(row)
    }
}

pub open spec fn playlist_keeps(items: Seq<SyncPlaylist>) -> spec_fn(int) -> bool {
    |i: int| keeps_playlist(items[i])
}

/// The rows stored for a saved playlist list, in order.
pub fn playlist_rows(items: &Vec<SyncPlaylist>) -> (r: Vec<PlaylistRow>)
    ensures
        r@.len() == kept(items@.len(), playlist_keeps(items@)).len(),
        forall|j: int|
            0 <= j < r@.len() ==> is_playlist_row(
                items@[kept(items@.len(), playlist_keeps(items@))[j]],
                #[trigger] r@[j],
            ),
{
    let ghost f = playlist_keeps(items@);
    let mut out: Vec<PlaylistRow> = Vec::new();
    let mut i: usize = 0;
    while i < items.len()
        invariant
            i <= items.len(),
            f == playlist_keeps(items@),
            out@.len() == kept(i as nat, f).len(),
            forall|j: int|
                0 <= j < out@.len() ==> is_playlist_row(
                    items@[kept(i as nat, f)[j]],
                    #[trigger] out@[j],
                ),
        decreases items.len() - i,
    {
        assert(f(i as int) == keeps_playlist(items@[i as int]));
        match playlist_row(&items[i]) {
            Some(row) => {
                out.push(row);
            },
            None => {},
        }
        i = i + 1;
    }
    out
}

// ---------------------------------------------------------------------------
// Radio stations
// ---------------------------------------------------------------------------

pub struct SyncStation {
    pub id: Option<String>,
    pub name: Option<String>,
    pub stream_url: Option<String>,
    pub genre: Option<String>,
    pub country: Option<String>,
    pub bitrate: Option<String>,
    pub favicon: Option<String>,
    pub is_custom: Option<bool>,
}

pub struct StationRow {
    pub id: String,
    pub name: String,
    pub stream_url: String,
    pub genre: Option<String>,
    pub country: Option<String>,
    pub bitrate: Option<String>,
    pub favicon: Option<String>,
    pub is_custom: i64,
}

pub open spec fn keeps_station(s: SyncStation) -> bool {
    text_or(s.id, ""@).len() > 0 && text_or(s.stream_url, ""@).len() > 0
}

/// A station counts as added by hand unless it says otherwise.
pub open spec fn is_station_row(s: SyncStation, r: StationRow) -> bool {
    &&& r.id@ == text_or(s.id, ""@)
    &&& r.name@ == text_or(s.name, ""@)
    &&& r.stream_url@ == text_or(s.stream_url, ""@)
    &&& opt_view(r.genre) == opt_view(s.genre)
    &&& opt_view(r.country) == opt_view(s.country)
    &&& opt_view(r.bitrate) == opt_view(s.bitrate)
    &&& opt_view(r.favicon) == opt_view(s.favicon)
    &&& r.is_custom == flag_value(bool_or(s.is_custom, true))
}

/// The row stored for one saved station; `None` when it is skipped.
pub fn station_row(s: &SyncStation) -> (r: Option<StationRow>)
    ensures
        r is Some <==> keeps_station(*s),
        r matches Some(row) ==> is_station_row(*s, row),
{
    let row = StationRow {
        id: text_or_of(&s.id, ""),
        name: text_or_of(&s.name, ""),
        stream_url: text_or_of(&s.stream_url, ""),
        genre: clone_opt(&s.genre),
        country: clone_opt(&s.country),
        bitrate: clone_opt(&s.bitrate),
        favicon: clone_opt(&s.favicon),
        is_custom: flag_of(s.is_custom, true),
    };
    if row.id.as_str().is_empty() || row.stream_url.as_str().is_empty() {
        None
    } else {
        Some(row)
    }
}

pub open spec fn station_keeps(items: Seq<SyncStation>) -> spec_fn(int) -> bool {
    |i: int| keeps_station(items[i])
}

/// The rows stored for a saved station list, in order.
pub fn station_rows(items: &Vec<SyncStation>) -> (r: Vec<StationRow>)
    ensures
        r@.len() == kept(items@.len(), station_keeps(items@)).len(),
        forall|j: int|
            0 <= j < r@.len() ==> is_station_row(
                items@[kept(items@.len(), station_keeps(items@))[j]],
                #[trigger] r@[j],
            ),
{
    let ghost f = station_keeps(items@);
    let mut out: Vec<StationRow> = Vec::new();
    let mut i: usize = 0;
    while i < items.len()
        invariant
            i <= items.len(),
            f == station_keeps(items@),
            out@.len() == kept(i as nat, f).len(),
            forall|j: int|
                0 <= j < out@.len() ==> is_station_row(
                    items@[kept(i as nat, f)[j]],
                    #[trigger] out@[j],
                ),
        decreases items.len() - i,
    {
        assert(f(i as int) == keeps_station(items@[i as int]));
        match station_row(&items[i]) {
            Some(row) => {
                out.push(row);
            },
            None => {},
        }
        i = i + 1;
    }
    out
}

/// The sync time recorded for a save: the one sent, else the time of the
/// save (UNIX milliseconds).
pub fn sync_stamp(sent: Option<i64>, now_ms: i64) -> (r: i64)
    ensures
        r == (match sent {
            Some(v) => v,
            None => now_ms,
        }),
{
    match sent {
        Some(v) => v,
        None => now_ms,
    }
}

// ---------------------------------------------------------------------------
// Answering a stored library
// ---------------------------------------------------------------------------

/// A stored track row (without its duration).
pub struct StoredTrack {
    pub id: String,
    pub title: String,
    pub artist: String,
    pub album: Option<String>,
    pub audio_url: String,
    pub cover_url: Option<String>,
    pub genre: Option<String>,
    pub format: Option<String>,
    pub bitrate: Option<String>,
    pub plays: i64,
    pub is_favorite: i64,
    pub is_live_stream: i64,
    pub is_local_upload: i64,
    pub playlist_only: i64,
    pub added_at: Option<String>,
}

/// A track as the client is answered it (without its duration).
pub struct TrackOut {
    pub id: String,
    pub title: String,
    pub artist: String,
    pub album: Option<String>,
    pub audio_url: String,
    pub cover_url: Option<String>,
    pub genre: String,
    pub format: String,
    pub bitrate: Option<String>,
    pub plays: i64,
    pub is_favorite: bool,
    pub is_live_stream: bool,
    pub is_local_upload: bool,
    pub playlist_only: bool,
    pub added_at: String,
}

pub open spec fn is_track_out(s: StoredTrack, o: TrackOut) -> bool {
    &&& o.id@ == s.id@
    &&& o.title@ == s.title@
    &&& o.artist@ == s.artist@
    &&& opt_view(o.album) == opt_view(s.album)
    &&& o.audio_url@ == s.audio_url@
    &&& opt_view(o.cover_url) == opt_view(s.cover_url)
    &&& o.genre@ == text_or(s.genre, DEFAULT_GENRE@)
    &&& o.format@ == text_or(s.format, DEFAULT_FORMAT@)
    &&& opt_view(o.bitrate) == opt_view(s.bitrate)
    &&& o.plays == s.plays
    &&& o.is_favorite == (s.is_favorite == 1)
    &&& o.is_live_stream == (s.is_live_stream == 1)
    &&& o.is_local_upload == (s.is_local_upload == 1)
    &&& o.playlist_only == (s.playlist_only == 1)
    &&& o.added_at@ == text_or(s.added_at, ""@)
}

/// How a stored track is answered.
pub fn track_out(s: StoredTrack) -> (o: TrackOut)
    ensures
        is_track_out(s, o),
{
    TrackOut {
        id: s.id,
        title: s.title,
        artist: s.artist,
        album: s.album,
        audio_url: s.audio_url,
        cover_url: s.cover_url,
        genre: text_or_owned(s.genre, DEFAULT_GENRE),
        format: text_or_owned(s.format, DEFAULT_FORMAT),
        bitrate: s.bitrate,
        plays: s.plays,
        is_favorite: s.is_favorite == 1,
        is_live_stream: s.is_live_stream == 1,
        is_local_upload: s.is_local_upload == 1,
        playlist_only: s.playlist_only == 1,
        added_at: text_or_owned(s.added_at, ""),
    }
}

/// `s` is what the store holds after `r` was written: every field as
/// written.
pub open spec fn stored_as(r: TrackRow, s: StoredTrack) -> bool {
    &&& s.id@ == r.id@
    &&& s.title@ == r.title@
    &&& s.artist@ == r.artist@
    &&& opt_view(s.album) == opt_view(r.album)
    &&& s.audio_url@ == r.audio_url@
    &&& opt_view(s.cover_url) == opt_view(r.cover_url)
    &&& opt_view(s.genre) == Some(r.genre@)
    &&& opt_view(s.format) == Some(r.format@)
    &&& opt_view(s.bitrate) == opt_view(r.bitrate)
    &&& s.plays == r.plays
    &&& s.is_favorite == r.is_favorite
    &&& s.is_live_stream == r.is_live_stream
    &&& s.is_local_upload == r.is_local_upload
    &&& s.playlist_only == r.playlist_only
    &&& opt_view(s.added_at) == Some(r.added_at@)
}

/// A saved track reads back as it was sent: the text fields, the play
/// count and the flags, with the same defaults filled in.
pub proof fn law_saved_track_reads_back(t: SyncTrack, r: TrackRow, s: StoredTrack, o: TrackOut)
    requires
        is_track_row(t, r),
        stored_as(r, s),
        is_track_out(s, o),
    ensures
        o.id@ == text_or(t.id, ""@),
        o.title@ == text_or(t.title, ""@),
        o.artist@ == text_or(t.artist, ""@),
        opt_view(o.album) == opt_view(t.album),
        o.audio_url@ == text_or(t.audio_url, ""@),
        opt_view(o.cover_url) == opt_view(t.cover_url),
        o.genre@ == text_or(t.genre, DEFAULT_GENRE@),
        o.format@ == text_or(t.format, DEFAULT_FORMAT@),
        opt_view(o.bitrate) == opt_view(t.bitrate),
        o.plays == (match t.plays {
            Some(p) => p,
            None => 0,
        }),
        o.is_favorite == bool_or(t.is_favorite, false),
        o.is_live_stream == bool_or(t.is_live_stream, false),
        o.is_local_upload == bool_or(t.is_local_upload, false),
        o.playlist_only == bool_or(t.playlist_only, false),
        o.added_at@ == text_or(t.added_at, ""@),
{
}

/// What `serde_json::from_str::<Vec<String>>` reads from `text`: the
/// strings of a JSON array of strings, `None` for any other text.
pub uninterp spec fn json_string_list(text: Seq<char>) -> Option<Seq<Seq<char>>>;

/// `serde_json::from_str::<Vec<String>>(text).ok()`.
#[verifier::external_body]
fn parse_string_list(text: &str) -> (r: Option<Vec<String>>)
    ensures
        match json_string_list(text@) {
            Some(ids) => (r matches Some(v) && views(v@) == ids),
            None => r is None,
        },
{
    serde_json::from_str::<Vec<String>>(text).ok()
}

pub struct StoredPlaylist {
    pub id: String,
    pub title: String,
    pub description: Option<String>,
    pub cover_text: Option<String>,
    pub track_ids_json: String,
}

pub struct PlaylistOut {
    pub id: String,
    pub title: String,
    pub description: String,
    pub cover_text: String,
    pub track_ids: Vec<String>,
}

/// The track ids a stored playlist answers: the stored JSON list, or
/// none when it does not read as a list of strings.
pub open spec fn stored_track_ids(json: Seq<char>) -> Seq<Seq<char>> {
    match json_string_list(json) {
        Some(ids) => ids,
        None => Seq::empty(),
    }
}

/// How a stored playlist is answered.
pub fn playlist_out(s: StoredPlaylist) -> (o: PlaylistOut)
    ensures
        o.id@ == s.id@,
        o.title@ == s.title@,
        o.description@ == text_or(s.description, ""@),
        o.cover_text@ == text_or(s.cover_text, DEFAULT_COVER_TEXT@),
        views(o.track_ids@) == stored_track_ids(s.track_ids_json@),
        is_playlist_out(s, o),
{
    let ids = match parse_string_list(s.track_ids_json.as_str()) {
        Some(v) => v,
        None => {
            let v: Vec<String> = Vec::new();
            assert(views(v@) =~= Seq::<Seq<char>>::empty());
            v
        },
    };
    PlaylistOut {
        id: s.id,
        title: s.title,
        description: text_or_owned(s.description, ""),
        cover_text: text_or_owned(s.cover_text, DEFAULT_COVER_TEXT),
        track_ids: ids,
    }
}

/// What a stored playlist row holds: the playlist's id, title and
/// description (empty when missing), its cover text (`"PL"` when missing)
/// and the JSON text of its track ids exactly as sent (`"[]"` when
/// missing). A playlist is stored exactly when it has a non-empty id.
pub proof fn law_playlist_row_keeps_fields(p: SyncPlaylist, r: PlaylistRow)
    requires
        is_playlist_row(p, r),
    ensures
        keeps_playlist(p) <==> (p.id matches Some(x) && x@.len() > 0),
        p.id matches Some(x) ==> r.id@ == x@,
        p.title matches Some(x) ==> r.title@ == x@,
        p.title is None ==> r.title@ == ""@,
        p.description matches Some(x) ==> r.description@ == x@,
        p.description is None ==> r.description@ == ""@,
        p.cover_text matches Some(x) ==> r.cover_text@ == x@,
        p.cover_text is None ==> r.cover_text@ == "PL"@,
        p.track_ids_json matches Some(j) ==> r.track_ids_json@ == j@,
        p.track_ids_json is None ==> r.track_ids_json@ == "[]"@,
{
    reveal_strlit("");
}

/// `s` is what the store holds after the playlist row `r` was written.
pub open spec fn playlist_stored_as(r: PlaylistRow, s: StoredPlaylist) -> bool {
    &&& s.id@ == r.id@
    &&& s.title@ == r.title@
    &&& opt_view(s.description) == Some(r.description@)
    &&& opt_view(s.cover_text) == Some(r.cover_text@)
    &&& s.track_ids_json@ == r.track_ids_json@
}

/// `o` is how the stored playlist `s` is answered.
pub open spec fn is_playlist_out(s: StoredPlaylist, o: PlaylistOut) -> bool {
    &&& o.id@ == s.id@
    &&& o.title@ == s.title@
    &&& o.description@ == text_or(s.description, ""@)
    &&& o.cover_text@ == text_or(s.cover_text, DEFAULT_COVER_TEXT@)
    &&& views(o.track_ids@) == stored_track_ids(s.track_ids_json@)
}

/// A saved playlist reads back with what it was sent: its id, title,
/// description and cover text, and the track ids read from the JSON text
/// of its `trackIds` (none when that is no list of strings).
pub proof fn law_saved_playlist_reads_back(p: SyncPlaylist, r: PlaylistRow, s: StoredPlaylist, o: PlaylistOut)
    requires
        is_playlist_row(p, r),
        playlist_stored_as(r, s),
        is_playlist_out(s, o),
    ensures
        p.id matches Some(x) ==> o.id@ == x@,
        p.title matches Some(x) ==> o.title@ == x@,
        p.description matches Some(x) ==> o.description@ == x@,
        p.cover_text matches Some(x) ==> o.cover_text@ == x@,
        p.track_ids_json matches Some(j) ==> views(o.track_ids@) == match json_string_list(j@) {
            Some(ids) => ids,
            None => Seq::<Seq<char>>::empty(),
        },
        p.track_ids_json is None ==> views(o.track_ids@) == stored_track_ids("[]"@),
{
}

pub struct StoredStation {
    pub id: String,
    pub name: String,
    pub stream_url: String,
    pub genre: Option<String>,
    pub country: Option<String>,
    pub bitrate: Option<String>,
    pub favicon: Option<String>,
    pub is_custom: i64,
}

pub struct StationOut {
    pub id: String,
    pub name: String,
    pub stream_url: String,
    pub genre: String,
    pub country: Option<String>,
    pub bitrate: Option<String>,
    pub favicon: Option<String>,
    pub is_custom: bool,
}

/// How a stored station is answered.
pub fn station_out(s: StoredStation) -> (o: StationOut)
    ensures
        o.id@ == s.id@,
        o.name@ == s.name@,
        o.stream_url@ == s.stream_url@,
        o.genre@ == text_or(s.genre, DEFAULT_STATION_GENRE@),
        opt_view(o.country) == opt_view(s.country),
        opt_view(o.bitrate) == opt_view(s.bitrate),
        opt_view(o.favicon) == opt_view(s.favicon),
        o.is_custom == (s.is_custom == 1),
        is_station_out(s, o),
{
    StationOut {
        id: s.id,
        name: s.name,
        stream_url: s.stream_url,
        genre: text_or_owned(s.genre, DEFAULT_STATION_GENRE),
        country: s.country,
        bitrate: s.bitrate,
        favicon: s.favicon,
        is_custom: s.is_custom == 1,
    }
}

/// `o` is how the stored station `s` is answered.
pub open spec fn is_station_out(s: StoredStation, o: StationOut) -> bool {
    &&& o.id@ == s.id@
    &&& o.name@ == s.name@
    &&& o.stream_url@ == s.stream_url@
    &&& o.genre@ == text_or(s.genre, DEFAULT_STATION_GENRE@)
    &&& opt_view(o.country) == opt_view(s.country)
    &&& opt_view(o.bitrate) == opt_view(s.bitrate)
    &&& opt_view(o.favicon) == opt_view(s.favicon)
    &&& o.is_custom == (s.is_custom == 1)
}

/// `s` is what the store holds after the station row `r` was written.
pub open spec fn station_stored_as(r: StationRow, s: StoredStation) -> bool {
    &&& s.id@ == r.id@
    &&& s.name@ == r.name@
    &&& s.stream_url@ == r.stream_url@
    &&& opt_view(s.genre) == opt_view(r.genre)
    &&& opt_view(s.country) == opt_view(r.country)
    &&& opt_view(s.bitrate) == opt_view(r.bitrate)
    &&& opt_view(s.favicon) == opt_view(r.favicon)
    &&& s.is_custom == r.is_custom
}

/// Which saved items are stored: a track with a non-empty id and a
/// non-empty link, a playlist with a non-empty id, a station with a
/// non-empty id and a non-empty stream link.
pub proof fn law_library_items_kept(t: SyncTrack, p: SyncPlaylist, s: SyncStation)
    ensures
        keeps_track(t) <==> (t.id matches Some(x) && x@.len() > 0 && (t.audio_url matches Some(
            u,
        ) && u@.len() > 0)),
        keeps_playlist(p) <==> (p.id matches Some(x) && x@.len() > 0),
        keeps_station(s) <==> (s.id matches Some(x) && x@.len() > 0 && (s.stream_url matches Some(
            u,
        ) && u@.len() > 0)),
{
    reveal_strlit("");
}

/// A saved station reads back as it was sent: id, name and stream link,
/// genre (`"Radio"` when it had none), country, bitrate and icon, and
/// "added by hand" unless it said otherwise.
pub proof fn law_saved_station_reads_back(st: SyncStation, r: StationRow, s: StoredStation, o: StationOut)
    requires
        is_station_row(st, r),
        station_stored_as(r, s),
        is_station_out(s, o),
    ensures
        st.id matches Some(x) ==> o.id@ == x@,
        st.name matches Some(x) ==> o.name@ == x@,
        st.name is None ==> o.name@ == ""@,
        st.stream_url matches Some(x) ==> o.stream_url@ == x@,
        st.genre matches Some(g) ==> o.genre@ == g@,
        st.genre is None ==> o.genre@ == "Radio"@,
        opt_view(o.country) == opt_view(st.country),
        opt_view(o.bitrate) == opt_view(st.bitrate),
        opt_view(o.favicon) == opt_view(st.favicon),
        st.is_custom matches Some(b) ==> o.is_custom == b,
        st.is_custom is None ==> o.is_custom,
{
}

} // verus!
