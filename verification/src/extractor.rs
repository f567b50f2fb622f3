//! What the extractor and the helper services are asked: argument lists,
//! lookup links, and what is read from their answers.

use vstd::prelude::*;

use crate::links::{append_encoded, url_encoded};
use crate::search::views;
use crate::text::{append_str, chars_of, starts_with, str_starts_with, string_of};
use crate::tracks::{clone_opt, opt_view, str_opt};

verus! {

broadcast use vstd::string::group_string_axioms;

fn pushed(v: &mut Vec<String>, a: &str)
    ensures
        views(final(v)@) == views(old(v)@).push(a@),
{
    v.push(a.to_owned());
    assert(views(v@) =~= views(old(v)@).push(a@));
}

/// Arguments of a search (or a direct link) whose results are listed as
/// JSON lines: at most fifty entries.
pub open spec fn search_listing(search: Seq<char>) -> Seq<Seq<char>> {
    seq![search, "--dump-json"@, "--flat-playlist"@, "--playlist-end"@, "50"@]
}

pub fn search_listing_args(search: &str) -> (r: Vec<String>)
    ensures
        views(r@) == search_listing(search@),
{
    let mut v: Vec<String> = Vec::new();
    pushed(&mut v, search);
    pushed(&mut v, "--dump-json");
    pushed(&mut v, "--flat-playlist");
    pushed(&mut v, "--playlist-end");
    pushed(&mut v, "50");
    v
}

/// Arguments that describe one video as JSON, without its playlist.
pub open spec fn video_listing(url: Seq<char>) -> Seq<Seq<char>> {
    seq![url, "--dump-json"@, "--no-playlist"@]
}

pub fn video_listing_args(url: &str) -> (r: Vec<String>)
    ensures
        views(r@) == video_listing(url@),
{
    let mut v: Vec<String> = Vec::new();
    pushed(&mut v, url);
    pushed(&mut v, "--dump-json");
    pushed(&mut v, "--no-playlist");
    v
}

/// Arguments that list the entries of a playlist link as JSON lines: at
/// most a hundred; the link comes after `--`.
pub open spec fn playlist_listing(url: Seq<char>) -> Seq<Seq<char>> {
    seq!["--dump-json"@, "--flat-playlist"@, "--playlist-end"@, "100"@, "--"@, url]
}

pub fn playlist_listing_args(url: &str) -> (r: Vec<String>)
    ensures
        views(r@) == playlist_listing(url@),
{
    let mut v: Vec<String> = Vec::new();
    pushed(&mut v, "--dump-json");
    pushed(&mut v, "--flat-playlist");
    pushed(&mut v, "--playlist-end");
    pushed(&mut v, "100");
    pushed(&mut v, "--");
    pushed(&mut v, url);
    v
}

/// Arguments that print the audio link of `target` (after `--`); the
/// YouTube form asks for any audio and for the mobile and web clients.
pub open spec fn link_lookup(target: Seq<char>, youtube: bool) -> Seq<Seq<char>> {
    if youtube {
        seq![
            "--no-playlist"@,
            "--ignore-errors"@,
            "-g"@,
            "-f"@,
            "bestaudio/ba/b"@,
            "--extractor-args"@,
            "youtube:player_client=ios,web,mweb"@,
            "--"@,
            target,
        ]
    } else {
        seq!["--no-playlist"@, "--ignore-errors"@, "-g"@, "-f"@, "bestaudio/b"@, "--"@, target]
    }
}

pub fn link_lookup_args(target: &str, youtube: bool) -> (r: Vec<String>)
    ensures
        views(r@) == link_lookup(target@, youtube),
{
    let mut v: Vec<String> = Vec::new();
    pushed(&mut v, "--no-playlist");
    pushed(&mut v, "--ignore-errors");
    pushed(&mut v, "-g");
    pushed(&mut v, "-f");
    if youtube {
        pushed(&mut v, "bestaudio/ba/b");
        pushed(&mut v, "--extractor-args");
        pushed(&mut v, "youtube:player_client=ios,web,mweb");
    } else {
        pushed(&mut v, "bestaudio/b");
    }
    pushed(&mut v, "--");
    pushed(&mut v, target);
    assert(views(v@) =~= link_lookup(target@, youtube));
    v
}

/// YouTube's oEmbed record of a link.
pub open spec fn oembed_link(url: Seq<char>) -> Seq<char> {
    "https://www.youtube.com/oembed?url="@ + url_encoded(url) + "&format=json"@
}

pub fn oembed_url(url: &str) -> (r: String)
    ensures
        r@ == oembed_link(url@),
{
    let mut v = chars_of("https://www.youtube.com/oembed?url=");
    append_encoded(&mut v, url);
    append_str(&mut v, "&format=json");
    string_of(&v)
}

/// The Invidious mirrors asked, in order, for the audio of a video.
pub open spec fn mirror_list() -> Seq<Seq<char>> {
    seq![
        "https://inv.nadeko.net"@,
        "https://invidious.nerdvpn.de"@,
        "https://vid.priv.au"@,
        "https://invidious.private.coffee"@,
        "https://yt.drgnz.club"@,
    ]
}

pub fn mirror_instances() -> (r: Vec<String>)
    ensures
        views(r@) == mirror_list(),
{
    let mut v: Vec<String> = Vec::new();
    pushed(&mut v, "https://inv.nadeko.net");
    pushed(&mut v, "https://invidious.nerdvpn.de");
    pushed(&mut v, "https://vid.priv.au");
    pushed(&mut v, "https://invidious.private.coffee");
    pushed(&mut v, "https://yt.drgnz.club");
    v
}

/// One entry of a mirror's `adaptiveFormats` list; a field is `None` when
/// missing or not a string.
pub struct MediaFormat {
    pub mime: Option<String>,
    pub url: Option<String>,
}

/// An entry usable as audio: an `audio/…` type and a non-empty link.
pub open spec fn audio_format(f: MediaFormat) -> bool {
    &&& f.mime matches Some(m) && starts_with(m@, "audio/"@)
    &&& f.url matches Some(u) && u@.len() > 0
}

/// The link of the first usable audio entry.
pub open spec fn first_audio(formats: Seq<MediaFormat>) -> Option<Seq<char>>
    decreases formats.len(),
{
    if formats.len() == 0 {
        None
    } else if audio_format(formats[0]) {
        opt_view(formats[0].url)
    } else {
        first_audio(formats.drop_first())
    }
}

pub fn first_audio_link(formats: &Vec<MediaFormat>) -> (r: Option<String>)
    ensures
        opt_view(r) == first_audio(formats@),
{
    let mut i: usize = 0;
    assert(formats@.skip(0) =~= formats@);
    while i < formats.len()
        invariant
            i <= formats.len(),
            first_audio(formats@) == first_audio(formats@.skip(i as int)),
        decreases formats.len() - i,
    {
        assert(formats@.skip(i as int)[0] == formats@[i as int]);
        assert(formats@.skip(i as int).drop_first() =~= formats@.skip(i + 1));
        let f = &formats[i];
        let usable = match (&f.mime, &f.url) {
            (Some(m), Some(u)) => str_starts_with(m.as_str(), "audio/") && !u.as_str().is_empty(),
            _ => false,
        };
        if usable {
            return clone_opt(&f.url);
        }
        i = i + 1;
    }
    None
}

/// The title of a listed playlist: from the first entry that names one,
/// by `playlist_title`, else by `playlist`.
pub open spec fn entry_playlist_title(title: Option<Seq<char>>, playlist: Option<Seq<char>>) -> Option<
    Seq<char>,
> {
    match title {
        Some(t) => Some(t),
        None => playlist,
    }
}

/// The playlist title after one more listed entry: kept once known.
pub fn next_playlist_title(
    known: Option<String>,
    title: Option<&str>,
    playlist: Option<&str>,
) -> (r: Option<String>)
    ensures
        known is Some ==> opt_view(r) == opt_view(known),
        known is None ==> opt_view(r) == entry_playlist_title(str_opt(title), str_opt(playlist)),
{
    if known.is_some() {
        return known;
    }
    match title {
        Some(t) => Some(t.to_owned()),
        None => match playlist {
            Some(p) => Some(p.to_owned()),
            None => None,
        },
    }
}

} // verus!
