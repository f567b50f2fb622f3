//! Streaming decisions: which source a stream request names, how it is
//! routed, the searches tried when a source yields no audio, and the
//! transcoder invocation.

use vstd::prelude::*;

use crate::links::{
    append_decimal, append_encoded, append_watch_url, decimal, id_after, is_web_url,
    url_encoded, watch_url, web_url, CLOUD_FALLBACK_URL,
};
use crate::search::views;
use crate::status::HttpStatus;
use crate::text::{
    append_str, chars_of, contains, contains_chars, ends_with, find, find_chars, lemma_find,
    lowercase, occurs_at, replace_all, replace_all_str, starts_with, str_contains,
    str_starts_with, string_of, string_of_range, to_lowercase, trim, trimmed, trimmed_chars,
};
use crate::title::{
    char_from, clean_music_title_checked, title_cleaning, lemma_char_from,
};
use crate::tracks::str_opt;

verus! {

broadcast use vstd::string::group_string_axioms;

// ---------------------------------------------------------------------------
// Searchable titles
// ---------------------------------------------------------------------------

/// The text a search is made of: the cleaned title where the cleaning
/// is well defined, else the title itself.
pub open spec fn searchable(t: Seq<char>) -> Seq<char> {
    match title_cleaning(t) {
        Some(c) => c,
        None => t,
    }
}

pub fn searchable_title(t: &str) -> (r: String)
    ensures
        r@ == searchable(t@),
{
    match clean_music_title_checked(t) {
        Some(c) => c,
        None => t.to_owned(),
    }
}

// ---------------------------------------------------------------------------
// The requested source
// ---------------------------------------------------------------------------

/// The source a stream request names: its `url`; else its `id` (a link,
/// or a YouTube video id); else a SoundCloud search for its title (and
/// artist). Empty when none is given.
pub open spec fn requested_target(
    url: Option<Seq<char>>,
    id: Option<Seq<char>>,
    title: Option<Seq<char>>,
    artist: Option<Seq<char>>,
) -> Seq<char> {
    if url is Some && trim(url->0).len() > 0 {
        trim(url->0)
    } else if id is Some {
        let i = trim(id->0);
        if starts_with(i, "http"@) {
            i
        } else {
            watch_url(i)
        }
    } else if title is Some && trim(title->0).len() > 0 {
        let a = trim(
            match artist {
                Some(a) => a,
                None => Seq::empty(),
            },
        );
        let c = searchable(trim(title->0));
        if a.len() > 0 {
            "scsearch2:"@ + c + " "@ + a
        } else {
            "scsearch2:"@ + c
        }
    } else {
        Seq::empty()
    }
}

/// The stream target, or `BadRequest` when none is named or it looks like
/// an option (leading `-`).
pub open spec fn stream_target(
    url: Option<Seq<char>>,
    id: Option<Seq<char>>,
    title: Option<Seq<char>>,
    artist: Option<Seq<char>>,
) -> Result<Seq<char>, HttpStatus> {
    let t = requested_target(url, id, title, artist);
    if t.len() == 0 || starts_with(t, "-"@) {
        Err(HttpStatus::BadRequest)
    } else {
        Ok(t)
    }
}

pub fn resolve_stream_target(
    url: Option<&str>,
    id: Option<&str>,
    title: Option<&str>,
    artist: Option<&str>,
) -> (r: Result<String, HttpStatus>)
    ensures
        match stream_target(str_opt(url), str_opt(id), str_opt(title), str_opt(artist)) {
            Ok(t) => r matches Ok(s) && s@ == t,
            Err(e) => r == Err::<String, HttpStatus>(e),
        },
{
    let mut target: Vec<char> = Vec::new();
    let mut chosen = false;
    if let Some(u) = url {
        let t = trimmed_chars(u);
        if t.len() > 0 {
            target = t;
            chosen = true;
        }
    }
    if !chosen {
        if let Some(i) = id {
            let it = trimmed(i);
            if str_starts_with(it.as_str(), "http") {
                target = chars_of(it.as_str());
            } else {
                let mut w: Vec<char> = Vec::new();
                append_watch_url(&mut w, it.as_str());
                target = w;
            }
            chosen = true;
        }
    }
    if !chosen {
        if let Some(t) = title {
            let tt = trimmed(t);
            if !tt.as_str().is_empty() {
                let a = trimmed(
                    match artist {
                        Some(a) => a,
                        None => "",
                    },
                );
                let c = searchable_title(tt.as_str());
                let mut q = chars_of("scsearch2:");
                append_str(&mut q, c.as_str());
                if !a.as_str().is_empty() {
                    append_str(&mut q, " ");
                    append_str(&mut q, a.as_str());
                }
                proof {
                    reveal_strlit("");
                }
                target = q;
            }
        }
    }
    proof {
        reveal_strlit("");
    }
    assert(target@ == requested_target(str_opt(url), str_opt(id), str_opt(title), str_opt(artist)));
    let dash = chars_of("-");
    if target.len() == 0 || crate::text::starts_with_chars(&target, &dash) {
        return Err(HttpStatus::BadRequest);
    }
    Ok(string_of(&target))
}

// ---------------------------------------------------------------------------
// Routing
// ---------------------------------------------------------------------------

/// How a stream target is turned into audio.
#[derive(PartialEq, Eq, Structural, Clone, Copy, Debug)]
pub enum StreamRoute {
    /// A direct audio link, transcoded as it is.
    Direct,
    /// A SoundCloud link or search, resolved by the extractor.
    SoundCloud,
    /// Anything else (YouTube), resolved by the extractor with fallbacks.
    YouTube,
}

/// A web link that already points at audio.
pub open spec fn is_direct_audio(t: Seq<char>) -> bool {
    is_web_url(t) && (ends_with(t, ".mp3"@) || ends_with(t, ".aac"@) || ends_with(t, ".aacp"@)
        || ends_with(t, ".m3u8"@) || contains(t, "/stream/"@) || contains(t, ":80"@))
}

pub open spec fn route_of(t: Seq<char>) -> StreamRoute {
    if is_direct_audio(t) {
        StreamRoute::Direct
    } else if contains(t, "soundcloud.com"@) || starts_with(t, "scsearch"@) {
        StreamRoute::SoundCloud
    } else {
        StreamRoute::YouTube
    }
}

pub fn stream_route(t: &str) -> (r: StreamRoute)
    ensures
        r == route_of(t@),
{
    let tc = chars_of(t);
    let direct = web_url(t) && (crate::text::ends_with_chars(&tc, &chars_of(".mp3"))
        || crate::text::ends_with_chars(&tc, &chars_of(".aac"))
        || crate::text::ends_with_chars(&tc, &chars_of(".aacp"))
        || crate::text::ends_with_chars(&tc, &chars_of(".m3u8")) || str_contains(t, "/stream/")
        || str_contains(t, ":80"));
    if direct {
        StreamRoute::Direct
    } else if str_contains(t, "soundcloud.com") || str_starts_with(t, "scsearch") {
        StreamRoute::SoundCloud
    } else {
        StreamRoute::YouTube
    }
}

/// Where each stream target goes. A web link (`http://` or `https://`)
/// that names audio (ending in `.mp3`, `.aac`, `.aacp` or `.m3u8`, or
/// holding `/stream/` or `:80`) is transcoded as it is, and only such
/// links are; of the rest, SoundCloud links and SoundCloud searches go to
/// the SoundCloud extractor, and everything else takes the YouTube route.
pub proof fn law_stream_routes(t: Seq<char>)
    ensures
        ({
            let web = starts_with(t, "http://"@) || starts_with(t, "https://"@);
            let audio = ends_with(t, ".mp3"@) || ends_with(t, ".aac"@) || ends_with(t, ".aacp"@)
                || ends_with(t, ".m3u8"@) || contains(t, "/stream/"@) || contains(t, ":80"@);
            let cloud = contains(t, "soundcloud.com"@) || starts_with(t, "scsearch"@);
            &&& (route_of(t) == StreamRoute::Direct <==> web && audio)
            &&& (route_of(t) == StreamRoute::SoundCloud <==> !(web && audio) && cloud)
            &&& (route_of(t) == StreamRoute::YouTube <==> !(web && audio) && !cloud)
        }),
{
}

/// A web target on a host other than the trusted music hosts must pass
/// the SSRF check before it is fetched.
pub open spec fn stream_needs_ssrf_check(t: Seq<char>) -> bool {
    is_web_url(t) && !(contains(t, "youtube.com"@) || contains(t, "youtu.be"@) || contains(
        t,
        "soundcloud.com"@,
    ) || contains(t, "sndcdn.com"@))
}

pub fn stream_requires_ssrf_check(t: &str) -> (r: bool)
    ensures
        r == stream_needs_ssrf_check(t@),
{
    web_url(t) && !(str_contains(t, "youtube.com") || str_contains(t, "youtu.be") || str_contains(
        t,
        "soundcloud.com",
    ) || str_contains(t, "sndcdn.com"))
}

// ---------------------------------------------------------------------------
// Reading the extractor's answer
// ---------------------------------------------------------------------------

/// What `String::from_utf8_lossy` makes of `bytes`.
pub uninterp spec fn utf8_lossy(bytes: Seq<u8>) -> Seq<char>;

/// `String::from_utf8_lossy`: the text of `bytes`, invalid sequences
/// replaced by U+FFFD.
#[verifier::external_body]
fn lossy_text(bytes: &[u8]) -> (r: String)
    ensures
        r@ == utf8_lossy(bytes@),
{
    String::from_utf8_lossy(bytes).into_owned()
}

/// `s` split at each `\n`.
pub open spec fn split_lines(s: Seq<char>) -> Seq<Seq<char>>
    decreases s.len(),
{
    match char_from(s, '\n', 0) {
        None => seq![s],
        Some(i) => {
            proof {
                lemma_char_from(s, '\n', 0);
            }
            seq![s.take(i)] + split_lines(s.skip(i + 1))
        },
    }
}

/// A trimmed line that is a link to a known audio host or format.
pub open spec fn is_audio_line(t: Seq<char>) -> bool {
    is_web_url(t) && (contains(t, "googlevideo.com"@) || contains(t, "soundcloud"@) || contains(
        t,
        "sndcdn"@,
    ) || contains(t, ".m3u8"@) || contains(t, ".mp3"@) || contains(t, ".aac"@))
}

/// The first trimmed line satisfying `audio` (when `audio`) or being a
/// web link (otherwise).
pub open spec fn first_line(lines: Seq<Seq<char>>, audio: bool) -> Option<Seq<char>>
    decreases lines.len(),
{
    if lines.len() == 0 {
        None
    } else {
        let t = trim(lines[0]);
        if (audio && is_audio_line(t)) || (!audio && is_web_url(t)) {
            Some(t)
        } else {
            first_line(lines.drop_first(), audio)
        }
    }
}

/// The stream link printed by the extractor: the first line (trimmed)
/// that links to a known audio host or format, else the first line that
/// is a web link. Lines are split at `\n`; as every line is trimmed, a
/// `\r` before it changes nothing (as with `str::lines`).
pub open spec fn stream_url_in(text: Seq<char>) -> Option<Seq<char>> {
    match first_line(split_lines(text), true) {
        Some(t) => Some(t),
        None => first_line(split_lines(text), false),
    }
}

fn split_lines_exec(s: &Vec<char>) -> (r: Vec<Vec<char>>)
    ensures
        r@.map_values(|v: Vec<char>| v@) == split_lines(s@),
{
    let mut out: Vec<Vec<char>> = Vec::new();
    let mut rest: Vec<char> = s.clone();
    loop
        invariant
            split_lines(s@) == out@.map_values(|v: Vec<char>| v@) + split_lines(rest@),
        decreases rest.len(),
    {
        match crate::title::char_from_exec(&rest, '\n', 0) {
            None => {
                let ghost before = out@;
                out.push(rest);
                assert(out@.map_values(|v: Vec<char>| v@) =~= before.map_values(|v: Vec<char>| v@).push(
                    split_lines(s@).last(),
                )) by {
                    assert(split_lines(s@) == before.map_values(|v: Vec<char>| v@) + seq![
                        out@.last()@,
                    ]);
                }
                return out;
            },
            Some(i) => {
                proof {
                    lemma_char_from(rest@, '\n', 0);
                }
                let line = string_of_range(&rest, 0, i);
                let lc = chars_of(line.as_str());
                let tail_s = string_of_range(&rest, i + 1, rest.len());
                let tail = chars_of(tail_s.as_str());
                assert(lc@ == rest@.take(i as int));
                assert(tail@ == rest@.skip(i + 1));
                let ghost before = out@;
                out.push(lc);
                assert(out@.map_values(|v: Vec<char>| v@) =~= before.map_values(|v: Vec<char>| v@).push(
                    rest@.take(i as int),
                ));
                assert(split_lines(s@) =~= out@.map_values(|v: Vec<char>| v@) + split_lines(tail@));
                rest = tail;
            },
        }
    }
}

fn first_line_exec(lines: &Vec<Vec<char>>, audio: bool) -> (r: Option<String>)
    ensures
        match first_line(lines@.map_values(|v: Vec<char>| v@), audio) {
            Some(t) => r matches Some(s) && s@ == t,
            None => r is None,
        },
{
    let mut k: usize = 0;
    assert(lines@.map_values(|v: Vec<char>| v@).skip(0) =~= lines@.map_values(|v: Vec<char>| v@));
    while k < lines.len()
        invariant
            k <= lines.len(),
            first_line(lines@.map_values(|v: Vec<char>| v@), audio) == first_line(
                lines@.map_values(|v: Vec<char>| v@).skip(k as int),
                audio,
            ),
        decreases lines.len() - k,
    {
        let ghost rest = lines@.map_values(|v: Vec<char>| v@).skip(k as int);
        assert(rest[0] == lines@[k as int]@);
        assert(rest.drop_first() == lines@.map_values(|v: Vec<char>| v@).skip(k + 1));
        let line = string_of(&lines[k]);
        let t = trimmed(line.as_str());
        let hit = if audio {
            audio_line(t.as_str())
        } else {
            web_url(t.as_str())
        };
        if hit {
            return Some(t);
        }
        k = k + 1;
    }
    assert(lines@.map_values(|v: Vec<char>| v@).skip(lines.len() as int).len() == 0);
    None
}

fn audio_line(t: &str) -> (r: bool)
    ensures
        r == is_audio_line(t@),
{
    web_url(t) && (str_contains(t, "googlevideo.com") || str_contains(t, "soundcloud")
        || str_contains(t, "sndcdn") || str_contains(t, ".m3u8") || str_contains(t, ".mp3")
        || str_contains(t, ".aac"))
}

/// The stream link in the extractor's standard output.
pub fn extract_stream_url_from_output(stdout: &[u8]) -> (r: Option<String>)
    ensures
        match stream_url_in(utf8_lossy(stdout@)) {
            Some(t) => r matches Some(s) && s@ == t,
            None => r is None,
        },
{
    let text = lossy_text(stdout);
    let tc = chars_of(text.as_str());
    let lines = split_lines_exec(&tc);
    match first_line_exec(&lines, true) {
        Some(t) => Some(t),
        None => first_line_exec(&lines, false),
    }
}

// ---------------------------------------------------------------------------
// Fallback searches
// ---------------------------------------------------------------------------

/// A SoundCloud search for five results: the words, then the extra words
/// when there are any.
pub open spec fn sc_search(words: Seq<char>, extra: Seq<char>) -> Seq<char> {
    if extra.len() > 0 {
        "scsearch5:"@ + words + " "@ + extra
    } else {
        "scsearch5:"@ + words
    }
}

fn sc_search_of(words: &str, extra: &str) -> (r: String)
    ensures
        r@ == sc_search(words@, extra@),
{
    let mut q = chars_of("scsearch5:");
    append_str(&mut q, words);
    if !extra.is_empty() {
        append_str(&mut q, " ");
        append_str(&mut q, extra);
    }
    string_of(&q)
}

/// The SoundCloud searches tried, in order, for a track whose title and
/// artist are known: title and artist, then the title alone.
pub open spec fn soundcloud_queries(title: Seq<char>, artist: Seq<char>) -> Seq<Seq<char>> {
    let c = searchable(title);
    let a = searchable(artist);
    if c.len() == 0 {
        Seq::empty()
    } else if a.len() > 0 {
        seq![sc_search(c, a), sc_search(c, Seq::empty())]
    } else {
        seq![sc_search(c, Seq::empty())]
    }
}

pub fn soundcloud_fallback_queries(title: &str, artist: &str) -> (r: Vec<String>)
    ensures
        views(r@) == soundcloud_queries(title@, artist@),
{
    let c = searchable_title(title);
    let a = searchable_title(artist);
    let mut r: Vec<String> = Vec::new();
    if c.as_str().is_empty() {
        assert(views(r@) =~= Seq::<Seq<char>>::empty());
        return r;
    }
    r.push(sc_search_of(c.as_str(), a.as_str()));
    if !a.as_str().is_empty() {
        r.push(sc_search_of(c.as_str(), ""));
        proof {
            reveal_strlit("");
        }
        assert(views(r@) =~= soundcloud_queries(title@, artist@));
    } else {
        assert(views(r@) =~= soundcloud_queries(title@, artist@));
    }
    r
}

/// Title and artist read from a SoundCloud link's path when no title was
/// given: `…soundcloud.com/{artist}/{title}…`, dashes as spaces.
pub open spec fn slug_after(target: Seq<char>) -> Option<Seq<char>> {
    match find(target, "soundcloud.com/"@) {
        None => None,
        Some(i) => {
            let rest = target.skip(i + 15);
            match find(rest, "soundcloud.com/"@) {
                Some(j) => Some(rest.take(j)),
                None => Some(rest),
            }
        },
    }
}

/// The non-empty parts of `s` between `/` characters.
pub open spec fn path_parts(s: Seq<char>) -> Seq<Seq<char>>
    decreases s.len(),
{
    match char_from(s, '/', 0) {
        None => if s.len() > 0 {
            seq![s]
        } else {
            Seq::empty()
        },
        Some(i) => {
            proof {
                lemma_char_from(s, '/', 0);
            }
            (if i > 0 {
                seq![s.take(i)]
            } else {
                Seq::empty()
            }) + path_parts(s.skip(i + 1))
        },
    }
}

pub open spec fn dashes_to_spaces(s: Seq<char>) -> Seq<char> {
    replace_all(s, "-"@, " "@)
}

/// The (title, artist) searched for a SoundCloud target.
pub open spec fn soundcloud_names(target: Seq<char>, title: Seq<char>, artist: Seq<char>) -> (
    Seq<char>,
    Seq<char>,
) {
    if title.len() == 0 && slug_after(target) is Some {
        let parts = path_parts(slug_after(target)->0);
        if parts.len() >= 2 {
            (dashes_to_spaces(parts[1]), dashes_to_spaces(parts[0]))
        } else if parts.len() == 1 {
            (dashes_to_spaces(parts[0]), artist)
        } else {
            (title, artist)
        }
    } else {
        (title, artist)
    }
}

fn path_parts_exec(s: &Vec<char>) -> (r: Vec<Vec<char>>)
    ensures
        r@.map_values(|v: Vec<char>| v@) == path_parts(s@),
{
    let mut out: Vec<Vec<char>> = Vec::new();
    let mut rest: Vec<char> = s.clone();
    loop
        invariant
            path_parts(s@) == out@.map_values(|v: Vec<char>| v@) + path_parts(rest@),
        decreases rest.len(),
    {
        match crate::title::char_from_exec(&rest, '/', 0) {
            None => {
                let ghost before = out@.map_values(|v: Vec<char>| v@);
                if rest.len() > 0 {
                    out.push(rest);
                    assert(out@.map_values(|v: Vec<char>| v@) =~= before.push(out@.last()@));
                } else {
                    assert(path_parts(rest@) =~= Seq::<Seq<char>>::empty());
                }
                assert(out@.map_values(|v: Vec<char>| v@) =~= path_parts(s@));
                return out;
            },
            Some(i) => {
                proof {
                    lemma_char_from(rest@, '/', 0);
                }
                let tail_s = string_of_range(&rest, i + 1, rest.len());
                let tail = chars_of(tail_s.as_str());
                assert(tail@ == rest@.skip(i + 1));
                let ghost before = out@.map_values(|v: Vec<char>| v@);
                if i > 0 {
                    let part_s = string_of_range(&rest, 0, i);
                    let part = chars_of(part_s.as_str());
                    assert(part@ == rest@.take(i as int));
                    out.push(part);
                    assert(out@.map_values(|v: Vec<char>| v@) =~= before.push(rest@.take(i as int)));
                } else {
                    assert(out@.map_values(|v: Vec<char>| v@) =~= before);
                }
                assert(path_parts(s@) =~= out@.map_values(|v: Vec<char>| v@) + path_parts(tail@));
                rest = tail;
            },
        }
    }
}

fn dashes_to_spaces_of(s: &Vec<char>) -> (r: String)
    ensures
        r@ == dashes_to_spaces(s@),
{
    let st = string_of(s);
    proof {
        reveal_strlit("-");
    }
    replace_all_str(st.as_str(), "-", " ")
}

pub fn soundcloud_names_of(target: &str, title: &str, artist: &str) -> (r: (String, String))
    ensures
        (r.0@, r.1@) == soundcloud_names(target@, title@, artist@),
{
    if !title.is_empty() {
        return (title.to_owned(), artist.to_owned());
    }
    let tc = chars_of(target);
    let marker = chars_of("soundcloud.com/");
    let i = match find_chars(&tc, &marker) {
        None => return (title.to_owned(), artist.to_owned()),
        Some(i) => i,
    };
    proof {
        lemma_find(tc@, marker@);
        assert(occurs_at(tc@, marker@, i as int));
        assert(i + marker@.len() <= tc@.len());
    }
    let _len = tc.len();
    let start = i + marker.len();
    proof {
        reveal_strlit("soundcloud.com/");
        assert(marker@.len() == 15);
        assert(start == i + 15);
    }
    let rest_s = string_of_range(&tc, start, tc.len());
    let rest = chars_of(rest_s.as_str());
    assert(rest@ == tc@.skip(i + 15));
    let path: Vec<char> = match find_chars(&rest, &marker) {
        Some(j) => {
            proof {
                lemma_find(rest@, marker@);
                assert(occurs_at(rest@, marker@, j as int));
            }
            let p = string_of_range(&rest, 0, j);
            let pc = chars_of(p.as_str());
            assert(pc@ == rest@.take(j as int));
            pc
        },
        None => rest,
    };
    assert(slug_after(target@) == Some(path@));
    let parts = path_parts_exec(&path);
    assert(parts@.len() == path_parts(path@).len());
    if parts.len() >= 2 {
        assert(parts@[1]@ == path_parts(path@)[1]);
        assert(parts@[0]@ == path_parts(path@)[0]);
        (dashes_to_spaces_of(&parts[1]), dashes_to_spaces_of(&parts[0]))
    } else if parts.len() == 1 {
        assert(parts@[0]@ == path_parts(path@)[0]);
        (dashes_to_spaces_of(&parts[0]), artist.to_owned())
    } else {
        (title.to_owned(), artist.to_owned())
    }
}

/// The SoundCloud search tried for a YouTube track that yielded no audio,
/// from its title and uploader: with the uploader unless the title
/// already names it (compared lower-cased).
pub open spec fn youtube_fallback_query(title: Seq<char>, uploader: Seq<char>) -> Seq<char> {
    let c = searchable(title);
    let u = searchable(uploader);
    if u.len() > 0 && !contains(lowercase(c), lowercase(u)) {
        sc_search(c, u)
    } else {
        sc_search(c, Seq::empty())
    }
}

/// The searches tried, in order, for a YouTube track with the given
/// (trimmed) title and uploader; none without a title.
pub open spec fn youtube_fallback_queries(title: Seq<char>, uploader: Seq<char>) -> Seq<Seq<char>> {
    if title.len() == 0 {
        Seq::empty()
    } else if searchable(uploader).len() > 0 {
        seq![youtube_fallback_query(title, uploader), sc_search(searchable(title), Seq::empty())]
    } else {
        seq![youtube_fallback_query(title, uploader)]
    }
}

pub fn youtube_fallback_searches(title: &str, uploader: &str) -> (r: Vec<String>)
    ensures
        views(r@) == youtube_fallback_queries(title@, uploader@),
{
    let mut r: Vec<String> = Vec::new();
    if title.is_empty() {
        assert(views(r@) =~= Seq::<Seq<char>>::empty());
        return r;
    }
    let c = searchable_title(title);
    let u = searchable_title(uploader);
    let first = if !u.as_str().is_empty() && !str_contains(
        to_lowercase(c.as_str()).as_str(),
        to_lowercase(u.as_str()).as_str(),
    ) {
        sc_search_of(c.as_str(), u.as_str())
    } else {
        sc_search_of(c.as_str(), "")
    };
    proof {
        reveal_strlit("");
    }
    r.push(first);
    if !u.as_str().is_empty() {
        r.push(sc_search_of(c.as_str(), ""));
    }
    assert(views(r@) =~= youtube_fallback_queries(title@, uploader@));
    r
}

/// The video id tried on Invidious mirrors: the text after `v=`, else
/// after `youtu.be/`, up to the next `&`, `?`, `#` or `/` (possibly
/// empty).
pub open spec fn mirror_video_id(target: Seq<char>) -> Option<Seq<char>> {
    match id_after(target, "v="@) {
        Some(v) => Some(v),
        None => id_after(target, "youtu.be/"@),
    }
}

pub fn mirror_video_id_of(target: &str) -> (r: Option<String>)
    ensures
        match mirror_video_id(target@) {
            Some(v) => r matches Some(s) && s@ == v,
            None => r is None,
        },
{
    let tc = chars_of(target);
    match crate::links::id_after_of(&tc, "v=") {
        Some(v) => Some(string_of(&v)),
        None => match crate::links::id_after_of(&tc, "youtu.be/") {
            Some(v) => Some(string_of(&v)),
            None => None,
        },
    }
}

/// `{instance}/api/v1/videos/{id}`.
pub fn mirror_video_url(instance: &str, id: &str) -> (r: String)
    ensures
        r@ == instance@ + "/api/v1/videos/"@ + id@,
{
    let mut v = chars_of(instance);
    append_str(&mut v, "/api/v1/videos/");
    append_str(&mut v, id);
    string_of(&v)
}

/// The stream request forwarded to the production backend.
pub open spec fn cloud_stream_link(
    target: Seq<char>,
    ss: Option<u64>,
    title: Option<Seq<char>>,
    artist: Option<Seq<char>>,
) -> Seq<char> {
    CLOUD_FALLBACK_URL@ + "/api/stream?url="@ + url_encoded(target) + (match ss {
        Some(s) => "&ss="@ + decimal(s as nat),
        None => Seq::empty(),
    }) + (match title {
        Some(t) => "&title="@ + url_encoded(t),
        None => Seq::empty(),
    }) + (match artist {
        Some(a) => "&artist="@ + url_encoded(a),
        None => Seq::empty(),
    })
}

pub fn cloud_stream_url(target: &str, ss: Option<u64>, title: Option<&str>, artist: Option<&str>) -> (r:
    String)
    ensures
        r@ == cloud_stream_link(target@, ss, str_opt(title), str_opt(artist)),
{
    let mut v = chars_of(CLOUD_FALLBACK_URL);
    append_str(&mut v, "/api/stream?url=");
    append_encoded(&mut v, target);
    let ghost a = v@;
    if let Some(s) = ss {
        append_str(&mut v, "&ss=");
        append_decimal(&mut v, s);
    }
    let ghost b = v@;
    if let Some(t) = title {
        append_str(&mut v, "&title=");
        append_encoded(&mut v, t);
    }
    let ghost c = v@;
    if let Some(x) = artist {
        append_str(&mut v, "&artist=");
        append_encoded(&mut v, x);
    }
    assert(v@ =~= cloud_stream_link(target@, ss, str_opt(title), str_opt(artist)));
    string_of(&v)
}

// ---------------------------------------------------------------------------
// Transcoding
// ---------------------------------------------------------------------------

/// The referer sent with the audio request.
pub open spec fn referer_for(direct: Seq<char>) -> Seq<char> {
    if contains(direct, "soundcloud"@) || contains(direct, "sndcdn"@) {
        "https://soundcloud.com/"@
    } else {
        "https://www.youtube.com/"@
    }
}

pub fn referer(direct: &str) -> (r: &'static str)
    ensures
        r@ == referer_for(direct@),
{
    if str_contains(direct, "soundcloud") || str_contains(direct, "sndcdn") {
        "https://soundcloud.com/"
    } else {
        "https://www.youtube.com/"
    }
}

pub open spec fn transcoder_head(referer: Seq<char>) -> Seq<Seq<char>> {
    seq![
        "-protocol_whitelist"@,
        "http,https,tcp,tls,crypto"@,
        "-user_agent"@,
        "Mozilla/5.0 (Windows NT 10.0; Win64; x64) AppleWebKit/537.36 (KHTML, like Gecko) Chrome/128.0.0.0 Safari/537.36"@,
        "-referer"@,
        referer,
        "-reconnect"@,
        "1"@,
        "-reconnect_streamed"@,
        "1"@,
        "-reconnect_delay_max"@,
        "5"@,
        "-fflags"@,
        "+nobuffer"@,
        "-probesize"@,
        "65536"@,
        "-analyzeduration"@,
        "200000"@,
    ]
}

pub open spec fn transcoder_tail(direct: Seq<char>) -> Seq<Seq<char>> {
    seq![
        "-i"@,
        direct,
        "-vn"@,
        "-f"@,
        "mp3"@,
        "-b:a"@,
        "192k"@,
        "-flush_packets"@,
        "1"@,
        "pipe:1"@,
    ]
}

/// The transcoder's arguments: reading `direct` with the matching
/// referer (seeking to `ss` seconds when positive), writing MP3 at
/// 192 kbit/s to standard output.
pub open spec fn transcoder_args(direct: Seq<char>, ss: Option<u64>) -> Seq<Seq<char>> {
    transcoder_head(referer_for(direct)) + (match ss {
        Some(s) => if s > 0 {
            seq!["-ss"@, decimal(s as nat)]
        } else {
            Seq::empty()
        },
        None => Seq::empty(),
    }) + transcoder_tail(direct)
}

fn push_arg(v: &mut Vec<String>, a: &str)
    ensures
        views(final(v)@) == views(old(v)@).push(a@),
{
    v.push(a.to_owned());
    assert(views(v@) =~= views(old(v)@).push(a@));
}

pub fn ffmpeg_args(direct: &str, ss: Option<u64>) -> (r: Vec<String>)
    ensures
        views(r@) == transcoder_args(direct@, ss),
{
    let mut v: Vec<String> = Vec::new();
    push_arg(&mut v, "-protocol_whitelist");
    push_arg(&mut v, "http,https,tcp,tls,crypto");
    push_arg(&mut v, "-user_agent");
    push_arg(
        &mut v,
        "Mozilla/5.0 (Windows NT 10.0; Win64; x64) AppleWebKit/537.36 (KHTML, like Gecko) Chrome/128.0.0.0 Safari/537.36",
    );
    push_arg(&mut v, "-referer");
    push_arg(&mut v, referer(direct));
    push_arg(&mut v, "-reconnect");
    push_arg(&mut v, "1");
    push_arg(&mut v, "-reconnect_streamed");
    push_arg(&mut v, "1");
    push_arg(&mut v, "-reconnect_delay_max");
    push_arg(&mut v, "5");
    push_arg(&mut v, "-fflags");
    push_arg(&mut v, "+nobuffer");
    push_arg(&mut v, "-probesize");
    push_arg(&mut v, "65536");
    push_arg(&mut v, "-analyzeduration");
    push_arg(&mut v, "200000");
    assert(views(v@) =~= transcoder_head(referer_for(direct@)));
    let ghost head = views(v@);
    if let Some(s) = ss {
        if s > 0 {
            push_arg(&mut v, "-ss");
            let mut d: Vec<char> = Vec::new();
            append_decimal(&mut d, s);
            assert(d@ =~= decimal(s as nat));
            let ds = string_of(&d);
            push_arg(&mut v, ds.as_str());
        }
    }
    let ghost mid = views(v@);
    push_arg(&mut v, "-i");
    push_arg(&mut v, direct);
    push_arg(&mut v, "-vn");
    push_arg(&mut v, "-f");
    push_arg(&mut v, "mp3");
    push_arg(&mut v, "-b:a");
    push_arg(&mut v, "192k");
    push_arg(&mut v, "-flush_packets");
    push_arg(&mut v, "1");
    push_arg(&mut v, "pipe:1");
    assert(views(v@) =~= transcoder_args(direct@, ss));
    v
}

/// The extractor options every invocation starts with: no warnings, the
/// configured proxy when not blank (trimmed), the cookie file when one
/// was found.
pub open spec fn extractor_common_args(proxy: Option<Seq<char>>, cookies: Option<Seq<char>>) -> Seq<
    Seq<char>,
> {
    seq!["--no-warnings"@] + (match proxy {
        Some(p) => if trim(p).len() > 0 {
            seq!["--proxy"@, trim(p)]
        } else {
            Seq::empty()
        },
        None => Seq::empty(),
    }) + (match cookies {
        Some(c) => seq!["--cookies"@, c],
        None => Seq::empty(),
    })
}

pub fn yt_dlp_common_args(proxy: Option<&str>, cookies: Option<&str>) -> (r: Vec<String>)
    ensures
        views(r@) == extractor_common_args(str_opt(proxy), str_opt(cookies)),
{
    let mut v: Vec<String> = Vec::new();
    push_arg(&mut v, "--no-warnings");
    if let Some(p) = proxy {
        let t = trimmed(p);
        if !t.as_str().is_empty() {
            push_arg(&mut v, "--proxy");
            push_arg(&mut v, t.as_str());
        }
    }
    if let Some(c) = cookies {
        push_arg(&mut v, "--cookies");
        push_arg(&mut v, c);
    }
    assert(views(v@) =~= extractor_common_args(str_opt(proxy), str_opt(cookies)));
    v
}

proof fn lemma_no_dash(s: Seq<char>)
    requires
        s.len() > 0,
        s[0] != '-',
    ensures
        !starts_with(s, "-"@),
{
    reveal_strlit("-");
    if starts_with(s, "-"@) {
        assert(s.take(1)[0] == s[0]);
    }
}

/// The stream target a request names. A non-blank `url` is taken
/// trimmed; else an `id` is taken as a link when it starts with `http`
/// and as a YouTube video id otherwise; else a non-blank title becomes a
/// SoundCloud search for its searchable words, followed by the artist
/// when one is given. A request naming none of these, or a target that
/// starts like an option (`-`), is refused.
pub proof fn law_stream_targets(
    url: Option<Seq<char>>,
    id: Option<Seq<char>>,
    title: Option<Seq<char>>,
    artist: Option<Seq<char>>,
)
    ensures
        url matches Some(u) ==> (trim(u).len() > 0 ==> stream_target(url, id, title, artist) == (if starts_with(
            trim(u),
            "-"@,
        ) {
            Err::<Seq<char>, HttpStatus>(HttpStatus::BadRequest)
        } else {
            Ok(trim(u))
        })),
        !(url matches Some(u) && trim(u).len() > 0) ==> (id matches Some(i) ==> stream_target(url, id, title, artist)
            == (if starts_with(trim(i), "http"@) {
            Ok::<Seq<char>, HttpStatus>(trim(i))
        } else {
            Ok("https://www.youtube.com/watch?v="@ + trim(i))
        })),
        !(url matches Some(u) && trim(u).len() > 0) && id is None ==> (title matches Some(t) ==> (trim(t).len() > 0
            ==> stream_target(url, id, title, artist) == Ok::<Seq<char>, HttpStatus>(
            "scsearch2:"@ + searchable(trim(t)) + (match artist {
                Some(a) => if trim(a).len() > 0 {
                    " "@ + trim(a)
                } else {
                    Seq::empty()
                },
                None => Seq::empty(),
            }),
        ))),
        !(url matches Some(u) && trim(u).len() > 0) && id is None && !(title matches Some(t) && trim(t).len()
            > 0) ==> stream_target(url, id, title, artist) == Err::<Seq<char>, HttpStatus>(
            HttpStatus::BadRequest,
        ),
{
    reveal_strlit("-");
    reveal_strlit("http");
    reveal_strlit("https://www.youtube.com/watch?v=");
    reveal_strlit("scsearch2:");
    if let Some(i) = id {
        let t = trim(i);
        if starts_with(t, "http"@) {
            assert("http"@[0] == 'h');
            assert(t.take(4)[0] == t[0]);
            assert(t[0] == 'h');
            lemma_no_dash(t);
        }
        let w = "https://www.youtube.com/watch?v="@ + t;
        assert(w[0] == 'h');
        lemma_no_dash(w);
    }
    if let Some(t) = title {
        let c = searchable(trim(t));
        let q = "scsearch2:"@ + c;
        assert(q[0] == 's');
        lemma_no_dash(q);
        if let Some(a) = artist {
            let q2 = "scsearch2:"@ + c + " "@ + trim(a);
            assert(q2[0] == 's');
            lemma_no_dash(q2);
            assert(q2 =~= "scsearch2:"@ + c + (" "@ + trim(a)));
        }
        assert(q =~= q + Seq::<char>::empty());
    }
}

/// Whichever fallback searches are tried, a YouTube track without a
/// title gets none, and every search asks SoundCloud for five results.
pub proof fn law_fallback_searches(title: Seq<char>, artist: Seq<char>)
    ensures
        soundcloud_queries(title, artist) == (if searchable(title).len() == 0 {
            Seq::<Seq<char>>::empty()
        } else if searchable(artist).len() > 0 {
            seq![
                "scsearch5:"@ + searchable(title) + " "@ + searchable(artist),
                "scsearch5:"@ + searchable(title),
            ]
        } else {
            seq!["scsearch5:"@ + searchable(title)]
        }),
        title.len() == 0 ==> youtube_fallback_queries(title, artist).len() == 0,
        title.len() > 0 ==> youtube_fallback_queries(title, artist).len() == (if searchable(artist).len() > 0 {
            2int
        } else {
            1int
        }),
        title.len() > 0 && searchable(artist).len() > 0 ==> youtube_fallback_queries(title, artist)[1]
            == "scsearch5:"@ + searchable(title),
        title.len() > 0 ==> youtube_fallback_queries(title, artist)[0] == (if searchable(artist).len() > 0
            && !contains(lowercase(searchable(title)), lowercase(searchable(artist))) {
            "scsearch5:"@ + searchable(title) + " "@ + searchable(artist)
        } else {
            "scsearch5:"@ + searchable(title)
        }),
{
    reveal_strlit("");
}

/// The transcoder reads the direct link with the SoundCloud referer for
/// SoundCloud audio and the YouTube referer otherwise, seeks only for a
/// positive start, and writes MP3 at 192 kbit/s to standard output.
pub proof fn law_transcoder_args(direct: Seq<char>, ss: Option<u64>)
    ensures
        ({
            let args = transcoder_args(direct, ss);
            let seek = ss matches Some(s) && s > 0;
            let n: int = if seek {
                30
            } else {
                28
            };
            &&& args.len() == n
            &&& args[4] == "-referer"@
            &&& args[5] == (if contains(direct, "soundcloud"@) || contains(direct, "sndcdn"@) {
                "https://soundcloud.com/"@
            } else {
                "https://www.youtube.com/"@
            })
            &&& (ss matches Some(s) ==> (s > 0 ==> args[18] == "-ss"@ && args[19] == decimal(s as nat)))
            &&& args[n - 10] == "-i"@
            &&& args[n - 9] == direct
            &&& args[n - 6] == "mp3"@
            &&& args[n - 4] == "192k"@
            &&& args[n - 1] == "pipe:1"@
        }),
{
}

proof fn lemma_first_line(lines: Seq<Seq<char>>, audio: bool)
    ensures
        first_line(lines, audio) matches Some(t) ==> exists|k: int|
            0 <= k < lines.len() && t == trim(#[trigger] lines[k]) && ((audio && is_audio_line(t)) || (!audio
                && is_web_url(t))) && forall|j: int|
                0 <= j < k ==> !((audio && is_audio_line(trim(#[trigger] lines[j]))) || (!audio && is_web_url(
                    trim(lines[j]),
                ))),
        first_line(lines, audio) is None ==> forall|j: int|
            0 <= j < lines.len() ==> !((audio && is_audio_line(trim(#[trigger] lines[j]))) || (!audio
                && is_web_url(trim(lines[j])))),
    decreases lines.len(),
{
    if lines.len() > 0 {
        let rest = lines.drop_first();
        lemma_first_line(rest, audio);
        let t0 = trim(lines[0]);
        if !((audio && is_audio_line(t0)) || (!audio && is_web_url(t0))) {
            if let Some(t) = first_line(rest, audio) {
                let k = choose|k: int|
                    0 <= k < rest.len() && t == trim(#[trigger] rest[k]) && ((audio && is_audio_line(t))
                        || (!audio && is_web_url(t))) && forall|j: int|
                        0 <= j < k ==> !((audio && is_audio_line(trim(#[trigger] rest[j]))) || (!audio
                            && is_web_url(trim(rest[j]))));
                assert(lines[k + 1] == rest[k]);
                assert forall|j: int| 0 <= j < k + 1 implies !((audio && is_audio_line(
                    trim(#[trigger] lines[j]),
                )) || (!audio && is_web_url(trim(lines[j])))) by {
                    if j > 0 {
                        assert(lines[j] == rest[j - 1]);
                    }
                }
            } else {
                assert forall|j: int| 0 <= j < lines.len() implies !((audio && is_audio_line(
                    trim(#[trigger] lines[j]),
                )) || (!audio && is_web_url(trim(lines[j])))) by {
                    if j > 0 {
                        assert(lines[j] == rest[j - 1]);
                    }
                }
            }
        }
    }
}

/// The stream link read from the extractor's output is one of its lines,
/// trimmed, and a web link: the first line that links to a known audio
/// host or format (Google video, SoundCloud, `.m3u8`, `.mp3`, `.aac`)
/// when there is one, else the first web link; none when no line is a
/// web link.
pub proof fn law_stream_url_choice(text: Seq<char>)
    ensures
        ({
            let lines = split_lines(text);
            let web = |t: Seq<char>| starts_with(t, "http://"@) || starts_with(t, "https://"@);
            let audio = |t: Seq<char>|
                web(t) && (contains(t, "googlevideo.com"@) || contains(t, "soundcloud"@) || contains(
                    t,
                    "sndcdn"@,
                ) || contains(t, ".m3u8"@) || contains(t, ".mp3"@) || contains(t, ".aac"@));
            &&& (stream_url_in(text) matches Some(t) ==> web(t) && exists|k: int|
                0 <= k < lines.len() && t == trim(#[trigger] lines[k]))
            &&& ((exists|k: int| 0 <= k < lines.len() && audio(trim(#[trigger] lines[k]))) ==> (stream_url_in(
                text,
            ) matches Some(t) && audio(t) && exists|k: int|
                0 <= k < lines.len() && t == trim(#[trigger] lines[k]) && forall|j: int|
                    0 <= j < k ==> !audio(trim(#[trigger] lines[j]))))
            &&& ((forall|k: int| 0 <= k < lines.len() ==> !web(trim(#[trigger] lines[k]))) ==> stream_url_in(
                text,
            ) is None)
        }),
{
    let lines = split_lines(text);
    lemma_first_line(lines, true);
    lemma_first_line(lines, false);
}

/// `lines` joined with `\n` between them.
pub open spec fn joined_lines(lines: Seq<Seq<char>>) -> Seq<char>
    decreases lines.len(),
{
    if lines.len() == 0 {
        Seq::empty()
    } else if lines.len() == 1 {
        lines[0]
    } else {
        lines[0] + seq!['\n'] + joined_lines(lines.drop_first())
    }
}

/// The lines of an output are its pieces between `\n` characters: none of
/// them holds a `\n`, and joined with `\n` they give the output back.
pub proof fn law_split_lines(s: Seq<char>)
    ensures
        split_lines(s).len() >= 1,
        joined_lines(split_lines(s)) == s,
        forall|k: int| 0 <= k < split_lines(s).len() ==> !(#[trigger] split_lines(s)[k]).contains('\n'),
    decreases s.len(),
{
    lemma_char_from(s, '\n', 0);
    match char_from(s, '\n', 0) {
        None => {
            assert(split_lines(s) == seq![s]);
        },
        Some(i) => {
            let rest = s.skip(i + 1);
            law_split_lines(rest);
            let ls = split_lines(s);
            assert(ls == seq![s.take(i)] + split_lines(rest));
            assert(ls.drop_first() == split_lines(rest));
            assert(s == s.take(i) + seq!['\n'] + rest);
            assert forall|k: int| 0 <= k < ls.len() implies !(#[trigger] ls[k]).contains('\n') by {
                if k == 0 {
                    assert forall|j: int| 0 <= j < s.take(i).len() implies s.take(i)[j] != '\n' by {
                        assert(s.take(i)[j] == s[j]);
                    }
                } else {
                    assert(ls[k] == split_lines(rest)[k - 1]);
                }
            }
        },
    }
}

} // verus!
