//! Track records: reading a track from extractor output, the tracks made
//! from Audius results, chapters and oEmbed data, and the merge of search
//! results.
//!
//! A track's duration is a float and stays with the caller; everything
//! else about a track is decided here.

use vstd::prelude::*;

use crate::links::{
    append_decimal, append_encoded, append_signed_decimal, append_stream_link,
    append_watch_url, cover_link, cover_link_of, decimal, signed_decimal, stream_link,
    url_encoded, watch_url,
};
use crate::text::{
    append_str, chars_of, contains, replace_all, replace_all_str, starts_with, str_contains,
    str_starts_with, string_of, trim, trimmed,
};

verus! {

broadcast use vstd::string::group_string_axioms;

pub open spec fn opt_view(o: Option<String>) -> Option<Seq<char>> {
    match o {
        Some(s) => Some(s@),
        None => None,
    }
}

/// A track as the backend answers it, without its duration.
pub struct TrackInfo {
    pub id: String,
    pub title: String,
    pub artist: String,
    pub audio_url: String,
    pub cover_url: Option<String>,
}

impl View for TrackInfo {
    type V = (Seq<char>, Seq<char>, Seq<char>, Seq<char>, Option<Seq<char>>);

    open spec fn view(&self) -> (Seq<char>, Seq<char>, Seq<char>, Seq<char>, Option<Seq<char>>) {
        (self.id@, self.title@, self.artist@, self.audio_url@, opt_view(self.cover_url))
    }
}

// ---------------------------------------------------------------------------
// Extractor output
// ---------------------------------------------------------------------------

/// The `id` of an extractor record: text, or an integer.
pub enum TrackId {
    Text(String),
    Number(i64),
}

/// The fields of one extractor (yt-dlp) JSON record that a track is
/// made from; each is `None` when absent or of another JSON type.
pub struct TrackFields {
    pub id: Option<TrackId>,
    pub title: Option<String>,
    pub uploader: Option<String>,
    pub channel: Option<String>,
    pub artist: Option<String>,
    pub webpage_url: Option<String>,
    pub url: Option<String>,
    /// `url` of the last entry of a non-empty `thumbnails` array.
    pub last_thumbnail_url: Option<String>,
    pub thumbnail: Option<String>,
}

pub const UNTITLED: &'static str = "Без названия";

pub const UNKNOWN_ARTIST: &'static str = "Неизвестный исполнитель";

/// The id text of a record: the text itself, or the integer in decimal.
pub open spec fn record_id(f: TrackFields) -> Option<Seq<char>> {
    match f.id {
        Some(TrackId::Text(s)) => Some(s@),
        Some(TrackId::Number(v)) => Some(signed_decimal(v as int)),
        None => None,
    }
}

pub open spec fn record_title(f: TrackFields) -> Seq<char> {
    match f.title {
        Some(t) => t@,
        None => UNTITLED@,
    }
}

/// The artist: uploader, else channel, else artist field.
pub open spec fn record_artist(f: TrackFields) -> Seq<char> {
    match f.uploader {
        Some(u) => u@,
        None => match f.channel {
            Some(c) => c@,
            None => match f.artist {
                Some(a) => a@,
                None => UNKNOWN_ARTIST@,
            },
        },
    }
}

/// The page a record plays from: its `webpage_url`, else its `url` when
/// that is absolute, else the YouTube watch page of its id.
pub open spec fn record_page(f: TrackFields, id: Seq<char>) -> Seq<char> {
    match f.webpage_url {
        Some(u) => u@,
        None => match f.url {
            Some(u) => if starts_with(u@, "http"@) {
                u@
            } else {
                watch_url(id)
            },
            None => watch_url(id),
        },
    }
}

/// The cover image of a record: last thumbnail, else `thumbnail`.
pub open spec fn record_cover(f: TrackFields) -> Option<Seq<char>> {
    match f.last_thumbnail_url {
        Some(u) => Some(u@),
        None => opt_view(f.thumbnail),
    }
}

/// YouTube images are served through the backend's cover proxy.
pub open spec fn proxied_cover(c: Seq<char>, base: Seq<char>) -> Seq<char> {
    if contains(c, "ytimg.com"@) {
        cover_link(base, c)
    } else {
        c
    }
}

/// The track read from a record, `None` without a non-empty id.
pub open spec fn track_of_record(f: TrackFields, base: Seq<char>) -> Option<
    (Seq<char>, Seq<char>, Seq<char>, Seq<char>, Option<Seq<char>>),
> {
    match record_id(f) {
        None => None,
        Some(id) => if id.len() == 0 {
            None
        } else {
            Some(
                (
                    id,
                    record_title(f),
                    record_artist(f),
                    stream_link(base, record_page(f, id)),
                    match record_cover(f) {
                        Some(c) => Some(proxied_cover(c, base)),
                        None => None,
                    },
                ),
            )
        },
    }
}

pub(crate) fn clone_opt(o: &Option<String>) -> (r: Option<String>)
    ensures
        opt_view(r) == opt_view(*o),
{
    match o {
        Some(s) => Some(s.clone()),
        None => None,
    }
}

/// The text of `o`, borrowed.
pub(crate) fn borrowed_opt(o: &Option<String>) -> (r: Option<&str>)
    ensures
        str_opt(r) == opt_view(*o),
{
    match o {
        Some(s) => Some(s.as_str()),
        None => None,
    }
}

fn proxied_cover_of(c: &str, base: &str) -> (r: String)
    ensures
        r@ == proxied_cover(c@, base@),
{
    if str_contains(c, "ytimg.com") {
        cover_link_of(base, c)
    } else {
        c.to_owned()
    }
}

/// A track from one extractor record, with links through `base_url`.
pub fn parse_track_json(item: &TrackFields, base_url: &str) -> (r: Option<TrackInfo>)
    ensures
        match track_of_record(*item, base_url@) {
            Some(t) => r matches Some(ti) && ti@ == t,
            None => r is None,
        },
{
    let id: String = match &item.id {
        Some(TrackId::Text(s)) => s.clone(),
        Some(TrackId::Number(v)) => {
            let mut d: Vec<char> = Vec::new();
            append_signed_decimal(&mut d, *v);
            assert(d@ =~= signed_decimal(*v as int));
            string_of(&d)
        },
        None => return None,
    };
    if id.as_str().is_empty() {
        return None;
    }
    let title = match &item.title {
        Some(t) => t.clone(),
        None => UNTITLED.to_owned(),
    };
    let artist = match &item.uploader {
        Some(u) => u.clone(),
        None => match &item.channel {
            Some(c) => c.clone(),
            None => match &item.artist {
                Some(a) => a.clone(),
                None => UNKNOWN_ARTIST.to_owned(),
            },
        },
    };
    let page: String = match &item.webpage_url {
        Some(u) => u.clone(),
        None => match &item.url {
            Some(u) => if str_starts_with(u.as_str(), "http") {
                u.clone()
            } else {
                let mut w: Vec<char> = Vec::new();
                append_watch_url(&mut w, id.as_str());
                assert(w@ =~= watch_url(id@));
                string_of(&w)
            },
            None => {
                let mut w: Vec<char> = Vec::new();
                append_watch_url(&mut w, id.as_str());
                assert(w@ =~= watch_url(id@));
                string_of(&w)
            },
        },
    };
    let cover = match &item.last_thumbnail_url {
        Some(u) => Some(u.clone()),
        None => clone_opt(&item.thumbnail),
    };
    let cover_url = match cover {
        Some(c) => Some(proxied_cover_of(c.as_str(), base_url)),
        None => None,
    };
    let mut a: Vec<char> = Vec::new();
    append_stream_link(&mut a, base_url, page.as_str());
    assert(a@ =~= stream_link(base_url@, page@));
    Some(TrackInfo { id, title, artist, audio_url: string_of(&a), cover_url })
}

/// Every track read from a record plays through the backend's stream
/// endpoint.
pub proof fn law_tracks_stream_through_backend(f: TrackFields, base: Seq<char>)
    ensures
        track_of_record(f, base) matches Some(t) ==> t.3 == base + "/api/stream?url="@
            + url_encoded(record_page(f, t.0)),
{
}

/// What a track read from an extractor record is, field by field. A
/// record with a text id makes a track exactly when the id is not empty;
/// the track keeps that id, the title (or `UNTITLED`), the uploader, else
/// the channel, else the artist (or `UNKNOWN_ARTIST`); it plays through
/// the backend's stream endpoint from the record's `webpage_url` when it
/// has one, else from its `url` when that is absolute, else from the
/// YouTube watch page of its id; its cover is the last thumbnail, else
/// `thumbnail`, YouTube images going through the cover proxy.
pub proof fn law_record_track(f: TrackFields, base: Seq<char>)
    ensures
        f.id is None ==> track_of_record(f, base) is None,
        f.id matches Some(TrackId::Text(s)) ==> (track_of_record(f, base) is Some <==> s@.len() > 0),
        f.id matches Some(TrackId::Text(s)) ==> (track_of_record(f, base) matches Some(t) ==> t.0 == s@),
        track_of_record(f, base) matches Some(t) ==> {
            &&& (f.title matches Some(x) ==> t.1 == x@)
            &&& (f.title is None ==> t.1 == UNTITLED@)
            &&& (f.uploader matches Some(u) ==> t.2 == u@)
            &&& (f.channel matches Some(c) ==> (f.uploader is None ==> t.2 == c@))
            &&& (f.artist matches Some(a) ==> (f.uploader is None && f.channel is None ==> t.2 == a@))
            &&& (f.uploader is None && f.channel is None && f.artist is None ==> t.2 == UNKNOWN_ARTIST@)
            &&& (f.webpage_url matches Some(u) ==> t.3 == base + "/api/stream?url="@ + url_encoded(u@))
            &&& (f.url matches Some(u) ==> (f.webpage_url is None && starts_with(u@, "http"@) ==> t.3
                == base + "/api/stream?url="@ + url_encoded(u@)))
            &&& (f.webpage_url is None && (f.url is None || !starts_with(f.url->0@, "http"@)) ==> t.3
                == base + "/api/stream?url="@ + url_encoded("https://www.youtube.com/watch?v="@ + t.0))
            &&& ((f.last_thumbnail_url is None && f.thumbnail is None) ==> t.4 is None)
            &&& (f.last_thumbnail_url matches Some(c) ==> t.4 == Some(
                if contains(c@, "ytimg.com"@) {
                    base + "/api/cover?url="@ + url_encoded(c@)
                } else {
                    c@
                },
            ))
            &&& (f.thumbnail matches Some(c) ==> (f.last_thumbnail_url is None ==> t.4 == Some(
                if contains(c@, "ytimg.com"@) {
                    base + "/api/cover?url="@ + url_encoded(c@)
                } else {
                    c@
                },
            )))
        },
{
}

// ---------------------------------------------------------------------------
// Audius results
// ---------------------------------------------------------------------------

pub const AUDIUS_UNTITLED: &'static str = "Untitled";

pub const AUDIUS_ARTIST: &'static str = "Audius Artist";

/// The direct stream of an Audius track.
pub open spec fn audius_stream(id: Seq<char>) -> Seq<char> {
    "https://discoveryprovider.audius.co/v1/tracks/"@ + id + "/stream?app_name=RECRO_MUSIC"@
}

/// `{base}/api/stream?url=…&title=…&artist=…`, each value encoded.
pub open spec fn titled_stream_link(
    base: Seq<char>,
    target: Seq<char>,
    title: Seq<char>,
    artist: Seq<char>,
) -> Seq<char> {
    stream_link(base, target) + "&title="@ + url_encoded(title) + "&artist="@ + url_encoded(artist)
}

fn titled_stream_link_of(base: &str, target: &str, title: &str, artist: &str) -> (r: String)
    ensures
        r@ == titled_stream_link(base@, target@, title@, artist@),
{
    let mut v: Vec<char> = Vec::new();
    append_stream_link(&mut v, base, target);
    append_str(&mut v, "&title=");
    append_encoded(&mut v, title);
    append_str(&mut v, "&artist=");
    append_encoded(&mut v, artist);
    assert(v@ =~= titled_stream_link(base@, target@, title@, artist@));
    string_of(&v)
}

/// The track made from one Audius search result: `None` without a
/// non-empty id; title and artist (user name, else handle) trimmed.
pub open spec fn audius_track_of(
    id: Option<Seq<char>>,
    title: Option<Seq<char>>,
    user_name: Option<Seq<char>>,
    user_handle: Option<Seq<char>>,
    cover: Option<Seq<char>>,
    base: Seq<char>,
) -> Option<(Seq<char>, Seq<char>, Seq<char>, Seq<char>, Option<Seq<char>>)> {
    match id {
        None => None,
        Some(i) => if i.len() == 0 {
            None
        } else {
            let t = trim(
                match title {
                    Some(t) => t,
                    None => AUDIUS_UNTITLED@,
                },
            );
            let a = trim(
                match user_name {
                    Some(n) => n,
                    None => match user_handle {
                        Some(h) => h,
                        None => AUDIUS_ARTIST@,
                    },
                },
            );
            Some(("audius-"@ + i, t, a, titled_stream_link(base, audius_stream(i), t, a), cover))
        },
    }
}

pub open spec fn str_opt(o: Option<&str>) -> Option<Seq<char>> {
    match o {
        Some(s) => Some(s@),
        None => None,
    }
}

/// A track from one Audius search result.
pub fn audius_track(
    id: Option<&str>,
    title: Option<&str>,
    user_name: Option<&str>,
    user_handle: Option<&str>,
    cover: Option<String>,
    base_url: &str,
) -> (r: Option<TrackInfo>)
    ensures
        match audius_track_of(
            str_opt(id),
            str_opt(title),
            str_opt(user_name),
            str_opt(user_handle),
            opt_view(cover),
            base_url@,
        ) {
            Some(t) => r matches Some(ti) && ti@ == t,
            None => r is None,
        },
{
    let i = match id {
        Some(i) => i,
        None => return None,
    };
    if i.is_empty() {
        return None;
    }
    let t = trimmed(
        match title {
            Some(t) => t,
            None => AUDIUS_UNTITLED,
        },
    );
    let a = trimmed(
        match user_name {
            Some(n) => n,
            None => match user_handle {
                Some(h) => h,
                None => AUDIUS_ARTIST,
            },
        },
    );
    let mut s = chars_of("https://discoveryprovider.audius.co/v1/tracks/");
    append_str(&mut s, i);
    append_str(&mut s, "/stream?app_name=RECRO_MUSIC");
    assert(s@ =~= audius_stream(i@));
    let stream = string_of(&s);
    let audio_url = titled_stream_link_of(base_url, stream.as_str(), t.as_str(), a.as_str());
    let mut tid = chars_of("audius-");
    append_str(&mut tid, i);
    Some(TrackInfo { id: string_of(&tid), title: t, artist: a, audio_url, cover_url: cover })
}

/// One Audius search result as the response holds it. `duration_kept`
/// says whether its duration (a float, judged by the caller) lets it
/// through: at most ten minutes, and not between zero and thirty seconds.
pub struct AudiusItem {
    pub id: Option<String>,
    pub title: Option<String>,
    pub user_name: Option<String>,
    pub user_handle: Option<String>,
    pub cover_480: Option<String>,
    pub cover_150: Option<String>,
    pub duration_kept: bool,
}

/// The cover of a result: the larger artwork, else the smaller.
pub open spec fn audius_cover(item: AudiusItem) -> Option<Seq<char>> {
    match item.cover_480 {
        Some(c) => Some(c@),
        None => opt_view(item.cover_150),
    }
}

/// The track a result gives, when its duration lets it through.
pub open spec fn audius_pick(item: AudiusItem, base: Seq<char>) -> Option<
    (Seq<char>, Seq<char>, Seq<char>, Seq<char>, Option<Seq<char>>),
> {
    if !item.duration_kept {
        None
    } else {
        audius_track_of(
            opt_view(item.id),
            opt_view(item.title),
            opt_view(item.user_name),
            opt_view(item.user_handle),
            audius_cover(item),
            base,
        )
    }
}

/// The tracks of a result list, in order, each with the index of the
/// result it came from.
pub open spec fn audius_picks(items: Seq<AudiusItem>, base: Seq<char>) -> Seq<
    (int, (Seq<char>, Seq<char>, Seq<char>, Seq<char>, Option<Seq<char>>)),
>
    decreases items.len(),
{
    if items.len() == 0 {
        Seq::empty()
    } else {
        let p = audius_picks(items.drop_last(), base);
        match audius_pick(items.last(), base) {
            Some(t) => p.push((items.len() - 1, t)),
            None => p,
        }
    }
}

/// A track made from an Audius result: none without a non-empty id;
/// otherwise its id is `audius-` and the result's id, its title the
/// trimmed title (`Untitled` without one), its artist the trimmed user
/// name, else handle (`Audius Artist` without either), its link the
/// backend's stream endpoint for the Audius stream of that id with title
/// and artist, and its cover the one given.
pub proof fn law_audius_track(
    id: Option<Seq<char>>,
    title: Option<Seq<char>>,
    user_name: Option<Seq<char>>,
    user_handle: Option<Seq<char>>,
    cover: Option<Seq<char>>,
    base: Seq<char>,
)
    ensures
        audius_track_of(id, title, user_name, user_handle, cover, base) is Some <==> (id matches Some(i)
            && i.len() > 0),
        audius_track_of(id, title, user_name, user_handle, cover, base) matches Some(t) ==> {
            let i = id->0;
            let ti = trim(
                match title {
                    Some(x) => x,
                    None => "Untitled"@,
                },
            );
            let ar = trim(
                match user_name {
                    Some(n) => n,
                    None => match user_handle {
                        Some(h) => h,
                        None => "Audius Artist"@,
                    },
                },
            );
            &&& t.0 == "audius-"@ + i
            &&& t.1 == ti
            &&& t.2 == ar
            &&& t.3 == base + "/api/stream?url="@ + url_encoded(
                "https://discoveryprovider.audius.co/v1/tracks/"@ + i + "/stream?app_name=RECRO_MUSIC"@,
            ) + "&title="@ + url_encoded(ti) + "&artist="@ + url_encoded(ar)
            &&& t.4 == cover
        },
{
}

/// The track an Audius result makes, its cover being the larger
/// artwork, else the smaller.
pub open spec fn result_track(item: AudiusItem, base: Seq<char>) -> Option<
    (Seq<char>, Seq<char>, Seq<char>, Seq<char>, Option<Seq<char>>),
> {
    audius_track_of(
        opt_view(item.id),
        opt_view(item.title),
        opt_view(item.user_name),
        opt_view(item.user_handle),
        match item.cover_480 {
            Some(c) => Some(c@),
            None => opt_view(item.cover_150),
        },
        base,
    )
}

/// The tracks made from a list of Audius results: one for each result
/// whose duration lets it through and that makes a track, in the results'
/// order, each with the index of its result.
pub proof fn law_audius_picks(items: Seq<AudiusItem>, base: Seq<char>)
    ensures
        forall|j: int|
            0 <= j < audius_picks(items, base).len() ==> 0 <= (#[trigger] audius_picks(items, base)[j]).0
                < items.len() && items[audius_picks(items, base)[j].0].duration_kept && result_track(
                items[audius_picks(items, base)[j].0],
                base,
            ) == Some(audius_picks(items, base)[j].1),
        forall|j: int, k: int|
            0 <= j < k < audius_picks(items, base).len() ==> (#[trigger] audius_picks(items, base)[j]).0
                < (#[trigger] audius_picks(items, base)[k]).0,
        forall|i: int|
            0 <= i < items.len() && (#[trigger] items[i]).duration_kept && result_track(items[i], base) is Some
                ==> exists|j: int|
                0 <= j < audius_picks(items, base).len() && (#[trigger] audius_picks(items, base)[j]).0 == i,
    decreases items.len(),
{
    if items.len() > 0 {
        let n = items.len() as int;
        let rest = items.drop_last();
        law_audius_picks(rest, base);
        let p = audius_picks(items, base);
        let q = audius_picks(rest, base);
        let last = items.last();
        assert(audius_pick(last, base) == if last.duration_kept {
            result_track(last, base)
        } else {
            None
        });
        assert forall|j: int| 0 <= j < q.len() implies #[trigger] p[j] == q[j] by {}
        assert forall|j: int|
            0 <= j < p.len() implies 0 <= (#[trigger] p[j]).0 < items.len() && items[p[j].0].duration_kept
                && result_track(items[p[j].0], base) == Some(p[j].1) by {
            if j < q.len() {
                assert(p[j] == q[j]);
                assert(rest[q[j].0] == items[q[j].0]);
            }
        }
        assert forall|j: int, k: int| 0 <= j < k < p.len() implies (#[trigger] p[j]).0 < (#[trigger] p[k]).0 by {
            assert(p[j] == q[j]);
            if k < q.len() {
                assert(p[k] == q[k]);
            }
        }
        assert forall|i: int|
            0 <= i < items.len() && (#[trigger] items[i]).duration_kept && result_track(items[i], base) is Some
                implies exists|j: int| 0 <= j < p.len() && (#[trigger] p[j]).0 == i by {
            if i < n - 1 {
                assert(rest[i] == items[i]);
                let j = choose|j: int| 0 <= j < q.len() && (#[trigger] q[j]).0 == i;
                assert(p[j] == q[j]);
            } else {
                assert(p[q.len() as int].0 == i);
            }
        }
    }
}

/// The tracks made from Audius search results, in order, paired with the
/// index of their result.
pub fn audius_tracks(items: &Vec<AudiusItem>, base_url: &str) -> (r: Vec<(usize, TrackInfo)>)
    ensures
        r@.len() == audius_picks(items@, base_url@).len(),
        forall|i: int|
            0 <= i < r@.len() ==> ((#[trigger] r@[i]).0 as int, r@[i].1@) == audius_picks(
                items@,
                base_url@,
            )[i],
{
    let mut r: Vec<(usize, TrackInfo)> = Vec::new();
    let mut k: usize = 0;
    while k < items.len()
        invariant
            k <= items.len(),
            r@.len() == audius_picks(items@.take(k as int), base_url@).len(),
            forall|i: int|
                0 <= i < r@.len() ==> ((#[trigger] r@[i]).0 as int, r@[i].1@) == audius_picks(
                    items@.take(k as int),
                    base_url@,
                )[i],
        decreases items.len() - k,
    {
        let item = &items[k];
        assert(items@.take(k + 1).drop_last() == items@.take(k as int));
        assert(items@.take(k + 1).last() == items@[k as int]);
        if item.duration_kept {
            let cover = match &item.cover_480 {
                Some(c) => Some(c.clone()),
                None => clone_opt(&item.cover_150),
            };
            assert(opt_view(cover) == audius_cover(items@[k as int]));
            match audius_track(
                borrowed_opt(&item.id),
                borrowed_opt(&item.title),
                borrowed_opt(&item.user_name),
                borrowed_opt(&item.user_handle),
                cover,
                base_url,
            ) {
                Some(t) => {
                    r.push((k, t));
                },
                None => {},
            }
        }
        k = k + 1;
    }
    assert(items@.take(items.len() as int) == items@);
    r
}


/// The Audius search request for `query`.
pub fn audius_search_url(query: &str, limit: u64) -> (r: String)
    ensures
        r@ == "https://discoveryprovider.audius.co/v1/tracks/search?query="@ + url_encoded(query@)
            + "&app_name=RECRO_MUSIC&limit="@ + decimal(limit as nat),
{
    let mut v = chars_of("https://discoveryprovider.audius.co/v1/tracks/search?query=");
    append_encoded(&mut v, query);
    append_str(&mut v, "&app_name=RECRO_MUSIC&limit=");
    append_decimal(&mut v, limit);
    string_of(&v)
}

// ---------------------------------------------------------------------------
// Chapters and oEmbed data
// ---------------------------------------------------------------------------

pub const VARIOUS_ARTISTS: &'static str = "Разные исполнители";

/// The track for chapter `index` (from zero) of video `vid`, starting at
/// `start_secs`; artist and cover come from the main video when known.
pub open spec fn chapter_track_of(
    vid: Seq<char>,
    index: nat,
    title: Option<Seq<char>>,
    start_secs: nat,
    main_artist: Option<Seq<char>>,
    main_cover: Option<Seq<char>>,
    base: Seq<char>,
) -> (Seq<char>, Seq<char>, Seq<char>, Seq<char>, Option<Seq<char>>) {
    let t = trim(
        match title {
            Some(t) => t,
            None => UNTITLED@,
        },
    );
    let a = match main_artist {
        Some(a) => a,
        None => VARIOUS_ARTISTS@,
    };
    (
        vid + "_ch_"@ + decimal(index + 1),
        t,
        a,
        stream_link(base, watch_url(vid)) + "&ss="@ + decimal(start_secs) + "&title="@
            + url_encoded(t) + "&artist="@ + url_encoded(a),
        main_cover,
    )
}

pub fn chapter_track(
    vid: &str,
    index: u64,
    title: Option<&str>,
    start_secs: u64,
    main_artist: Option<&str>,
    main_cover: Option<String>,
    base_url: &str,
) -> (r: TrackInfo)
    requires
        index < u64::MAX,
    ensures
        r@ == chapter_track_of(
            vid@,
            index as nat,
            str_opt(title),
            start_secs as nat,
            str_opt(main_artist),
            opt_view(main_cover),
            base_url@,
        ),
{
    let t = trimmed(
        match title {
            Some(t) => t,
            None => UNTITLED,
        },
    );
    let a = match main_artist {
        Some(a) => a.to_owned(),
        None => VARIOUS_ARTISTS.to_owned(),
    };
    let mut id = chars_of(vid);
    append_str(&mut id, "_ch_");
    append_decimal(&mut id, index + 1);
    let mut w: Vec<char> = Vec::new();
    append_watch_url(&mut w, vid);
    let page = string_of(&w);
    let mut u: Vec<char> = Vec::new();
    append_stream_link(&mut u, base_url, page.as_str());
    append_str(&mut u, "&ss=");
    append_decimal(&mut u, start_secs);
    append_str(&mut u, "&title=");
    append_encoded(&mut u, t.as_str());
    append_str(&mut u, "&artist=");
    append_encoded(&mut u, a.as_str());
    assert(w@ =~= watch_url(vid@));
    assert(u@ =~= stream_link(base_url@, watch_url(vid@)) + "&ss="@ + decimal(start_secs as nat)
        + "&title="@ + url_encoded(t@) + "&artist="@ + url_encoded(a@));
    assert(id@ =~= vid@ + "_ch_"@ + decimal((index + 1) as nat));
    TrackInfo { id: string_of(&id), title: t, artist: a, audio_url: string_of(&u), cover_url: main_cover }
}

/// The fallback track built from YouTube's oEmbed answer for `vid`.
pub open spec fn oembed_track_of(
    vid: Seq<char>,
    title: Option<Seq<char>>,
    author: Option<Seq<char>>,
    thumbnail: Option<Seq<char>>,
    base: Seq<char>,
) -> (Seq<char>, Seq<char>, Seq<char>, Seq<char>, Option<Seq<char>>) {
    let t = match title {
        Some(t) => t,
        None => "YouTube Track"@,
    };
    let a = replace_all(
        match author {
            Some(a) => a,
            None => "YouTube Artist"@,
        },
        " - Topic"@,
        Seq::empty(),
    );
    (
        vid,
        t,
        a,
        titled_stream_link(base, watch_url(vid), t, a),
        match thumbnail {
            Some(u) => Some(cover_link(base, u)),
            None => None,
        },
    )
}

pub fn oembed_track(
    vid: &str,
    title: Option<&str>,
    author: Option<&str>,
    thumbnail: Option<&str>,
    base_url: &str,
) -> (r: TrackInfo)
    ensures
        r@ == oembed_track_of(vid@, str_opt(title), str_opt(author), str_opt(thumbnail), base_url@),
{
    let t = match title {
        Some(t) => t,
        None => "YouTube Track",
    };
    let raw_author = match author {
        Some(a) => a,
        None => "YouTube Artist",
    };
    proof {
        reveal_strlit(" - Topic");
    }
    let a = replace_all_str(raw_author, " - Topic", "");
    let cover = match thumbnail {
        Some(u) => Some(cover_link_of(base_url, u)),
        None => None,
    };
    let mut w: Vec<char> = Vec::new();
    append_watch_url(&mut w, vid);
    let page = string_of(&w);
    let audio_url = titled_stream_link_of(base_url, page.as_str(), t, a.as_str());
    proof {
        assert(""@ =~= Seq::<char>::empty()) by {
            reveal_strlit("");
        }
        assert(w@ =~= watch_url(vid@));
    }
    TrackInfo { id: vid.to_owned(), title: t.to_owned(), artist: a, audio_url, cover_url: cover }
}

/// A chapter track: its id is the video id, `_ch_` and the chapter's
/// number counted from one; its title the trimmed chapter title
/// (`UNTITLED` without one); its artist and cover those of the main video
/// (`VARIOUS_ARTISTS` without an artist); it plays the video's watch page
/// from the chapter's start, with title and artist.
pub proof fn law_chapter_track(
    vid: Seq<char>,
    index: nat,
    title: Option<Seq<char>>,
    start_secs: nat,
    main_artist: Option<Seq<char>>,
    main_cover: Option<Seq<char>>,
    base: Seq<char>,
)
    ensures
        ({
            let t = chapter_track_of(vid, index, title, start_secs, main_artist, main_cover, base);
            let ti = trim(
                match title {
                    Some(x) => x,
                    None => "Без названия"@,
                },
            );
            let ar = match main_artist {
                Some(a) => a,
                None => "Разные исполнители"@,
            };
            &&& t.0 == vid + "_ch_"@ + decimal(index + 1)
            &&& t.1 == ti
            &&& t.2 == ar
            &&& t.3 == base + "/api/stream?url="@ + url_encoded("https://www.youtube.com/watch?v="@ + vid)
                + "&ss="@ + decimal(start_secs) + "&title="@ + url_encoded(ti) + "&artist="@ + url_encoded(ar)
            &&& t.4 == main_cover
        }),
{
}

/// The track built from YouTube's oEmbed answer: the video id, the title
/// (`YouTube Track` without one), the author without ` - Topic`
/// (`YouTube Artist` without one), the watch page through the stream
/// endpoint with title and artist, and the thumbnail through the cover
/// proxy.
pub proof fn law_oembed_track(
    vid: Seq<char>,
    title: Option<Seq<char>>,
    author: Option<Seq<char>>,
    thumbnail: Option<Seq<char>>,
    base: Seq<char>,
)
    ensures
        ({
            let t = oembed_track_of(vid, title, author, thumbnail, base);
            let ti = match title {
                Some(x) => x,
                None => "YouTube Track"@,
            };
            let ar = replace_all(
                match author {
                    Some(a) => a,
                    None => "YouTube Artist"@,
                },
                " - Topic"@,
                Seq::empty(),
            );
            &&& t.0 == vid
            &&& t.1 == ti
            &&& t.2 == ar
            &&& t.3 == base + "/api/stream?url="@ + url_encoded("https://www.youtube.com/watch?v="@ + vid)
                + "&title="@ + url_encoded(ti) + "&artist="@ + url_encoded(ar)
            &&& (thumbnail matches Some(u) ==> t.4 == Some(base + "/api/cover?url="@ + url_encoded(u)))
            &&& (thumbnail is None ==> t.4 is None)
        }),
{
}

} // verus!
