//! Settings taken from the environment: the public base address, the
//! listening port, and where the extractor and its cookie file are looked
//! for.

use vstd::prelude::*;

use crate::numbers::{parse_u16, u16_of_text};
use crate::search::views;
use crate::text::{
    append_str, chars_of, starts_with, str_starts_with, string_of, string_of_range, trim, trimmed,
};
use crate::title::{char_from, char_from_exec, lemma_char_from};

verus! {

broadcast use vstd::string::group_string_axioms;

/// The port served when `PORT` is not set.
pub const DEFAULT_PORT: &'static str = "8085";

pub const DEFAULT_PORT_NUMBER: u16 = 8085;

/// The address this backend is reached at: `https://` and the public
/// domain when one is set (`RAILWAY_PUBLIC_DOMAIN`), else a local address
/// on the configured port.
pub open spec fn base_url_of(domain: Option<Seq<char>>, port: Option<Seq<char>>) -> Seq<char> {
    match domain {
        Some(d) => "https://"@ + d,
        None => "http://localhost:"@ + match port {
            Some(p) => p,
            None => DEFAULT_PORT@,
        },
    }
}

pub fn base_url(domain: Option<&str>, port: Option<&str>) -> (r: String)
    ensures
        r@ == base_url_of(
            match domain {
                Some(d) => Some(d@),
                None => None,
            },
            match port {
                Some(p) => Some(p@),
                None => None,
            },
        ),
{
    match domain {
        Some(d) => {
            let mut out = chars_of("https://");
            append_str(&mut out, d);
            string_of(&out)
        },
        None => {
            let mut out = chars_of("http://localhost:");
            match port {
                Some(p) => append_str(&mut out, p),
                None => append_str(&mut out, DEFAULT_PORT),
            }
            string_of(&out)
        },
    }
}

/// The port to listen on: `PORT` when it reads as a port number, else
/// the default.
pub fn listen_port(configured: Option<&str>) -> (r: u16)
    ensures
        r == (match configured {
            Some(p) => match u16_of_text(p@) {
                Some(v) => v,
                None => DEFAULT_PORT_NUMBER,
            },
            None => DEFAULT_PORT_NUMBER,
        }),
{
    match configured {
        Some(p) => match parse_u16(p) {
            Some(v) => v,
            None => DEFAULT_PORT_NUMBER,
        },
        None => DEFAULT_PORT_NUMBER,
    }
}

/// The extractor run when no copy is installed in the user's home.
pub const EXTRACTOR: &'static str = "yt-dlp";

/// Where a copy of the extractor installed in the user's home lives.
pub fn local_extractor_path(home: &str) -> (r: String)
    ensures
        r@ == home@ + "/.local/bin/yt-dlp"@,
{
    let mut out = chars_of(home);
    append_str(&mut out, "/.local/bin/yt-dlp");
    string_of(&out)
}

/// The extractor command: the copy in the user's home when it exists.
pub fn extractor_command(home: &str, local_exists: bool) -> (r: String)
    ensures
        local_exists ==> r@ == home@ + "/.local/bin/yt-dlp"@,
        !local_exists ==> r@ == EXTRACTOR@,
{
    if local_exists {
        local_extractor_path(home)
    } else {
        EXTRACTOR.to_owned()
    }
}

/// The cookie files looked for, in order: `YT_COOKIES_PATH`, then fixed
/// places, then two under the user's home. The first that exists is used.
pub open spec fn cookie_places(configured: Option<Seq<char>>, home: Seq<char>) -> Seq<Seq<char>> {
    let fixed = seq![
        "/data/cookies.txt"@,
        "/app/cookies.txt"@,
        "/tmp/cookies.txt"@,
        "cookies.txt"@,
        "backend/cookies.txt"@,
        home + "/music-player/backend/cookies.txt"@,
        home + "/.config/yt-dlp/cookies.txt"@,
    ];
    match configured {
        Some(p) => seq![p] + fixed,
        None => fixed,
    }
}

fn joined(home: &str, tail: &str) -> (r: String)
    ensures
        r@ == home@ + tail@,
{
    let mut out = chars_of(home);
    append_str(&mut out, tail);
    string_of(&out)
}

pub fn cookie_candidates(configured: Option<&str>, home: &str) -> (r: Vec<String>)
    ensures
        views(r@) == cookie_places(
            match configured {
                Some(p) => Some(p@),
                None => None,
            },
            home@,
        ),
{
    let mut out: Vec<String> = Vec::new();
    if let Some(p) = configured {
        out.push(p.to_owned());
    }
    out.push("/data/cookies.txt".to_owned());
    out.push("/app/cookies.txt".to_owned());
    out.push("/tmp/cookies.txt".to_owned());
    out.push("cookies.txt".to_owned());
    out.push("backend/cookies.txt".to_owned());
    out.push(joined(home, "/music-player/backend/cookies.txt"));
    out.push(joined(home, "/.config/yt-dlp/cookies.txt"));
    assert(views(out@) =~= cookie_places(
        match configured {
            Some(p) => Some(p@),
            None => None,
        },
        home@,
    ));
    out
}

/// The cookie text given in `YT_COOKIES`, trimmed, when not blank.
pub fn cookies_from_env(value: Option<&str>) -> (r: Option<String>)
    ensures
        match value {
            Some(v) => if trim(v@).len() > 0 {
                r matches Some(t) && t@ == trim(v@)
            } else {
                r is None
            },
            None => r is None,
        },
{
    match value {
        Some(v) => {
            let t = trimmed(v);
            if t.as_str().is_empty() {
                None
            } else {
                Some(t)
            }
        },
        None => None,
    }
}

/// Where cookies from `YT_COOKIES` are written: into the first of
/// `/data`, `/app` and `backend` that exists, else the working directory.
pub fn cookie_file_target(data_dir: bool, app_dir: bool, backend_dir: bool) -> (r: &'static str)
    ensures
        data_dir ==> r == "/data/cookies.txt",
        !data_dir && app_dir ==> r == "/app/cookies.txt",
        !data_dir && !app_dir && backend_dir ==> r == "backend/cookies.txt",
        !data_dir && !app_dir && !backend_dir ==> r == "cookies.txt",
{
    if data_dir {
        "/data/cookies.txt"
    } else if app_dir {
        "/app/cookies.txt"
    } else if backend_dir {
        "backend/cookies.txt"
    } else {
        "cookies.txt"
    }
}

/// The browser profiles whose presence makes cookies be refreshed at
/// start-up.
pub fn browser_profile_dirs(home: &str) -> (r: (String, String))
    ensures
        r.0@ == home@ + "/.config/chromium"@,
        r.1@ == home@ + "/.config/google-chrome"@,
{
    (joined(home, "/.config/chromium"), joined(home, "/.config/google-chrome"))
}

/// Extractor arguments that refresh the cookie file from the browser.
pub open spec fn cookie_refresh_list(home: Seq<char>) -> Seq<Seq<char>> {
    seq![
        "--cookies"@,
        home + "/music-player/backend/cookies.txt"@,
        "--cookies-from-browser"@,
        "chromium"@,
        "--playlist-items"@,
        "0"@,
        "--skip-download"@,
        "https://www.youtube.com/watch?v=3YZ5yuDByQg"@,
    ]
}

pub fn cookie_refresh_args(home: &str) -> (r: Vec<String>)
    ensures
        views(r@) == cookie_refresh_list(home@),
{
    let mut out: Vec<String> = Vec::new();
    out.push("--cookies".to_owned());
    out.push(joined(home, "/music-player/backend/cookies.txt"));
    out.push("--cookies-from-browser".to_owned());
    out.push("chromium".to_owned());
    out.push("--playlist-items".to_owned());
    out.push("0".to_owned());
    out.push("--skip-download".to_owned());
    out.push("https://www.youtube.com/watch?v=3YZ5yuDByQg".to_owned());
    assert(views(out@) =~= cookie_refresh_list(home@));
    out
}

/// The database: `DATABASE_URL` when it is an SQLite URL, else a file
/// under `/data` when that directory exists, else one in the working
/// directory.
pub fn database_url(configured: Option<&str>, data_dir: bool) -> (r: String)
    ensures
        (configured matches Some(c) && starts_with(c@, "sqlite:"@)) ==> r@ == configured->0@,
        !(configured matches Some(c) && starts_with(c@, "sqlite:"@)) ==> r@ == (if data_dir {
            "sqlite:///data/signal.db?mode=rwc"@
        } else {
            "sqlite://signal.db?mode=rwc"@
        }),
{
    if let Some(c) = configured {
        if str_starts_with(c, "sqlite:") {
            return c.to_owned();
        }
    }
    if data_dir {
        "sqlite:///data/signal.db?mode=rwc".to_owned()
    } else {
        "sqlite://signal.db?mode=rwc".to_owned()
    }
}

/// The parts of `s` between commas, as `str::split(',')` gives them.
pub open spec fn comma_parts(s: Seq<char>) -> Seq<Seq<char>>
    decreases s.len(),
{
    match char_from(s, ',', 0) {
        None => seq![s],
        Some(i) => {
            proof {
                lemma_char_from(s, ',', 0);
            }
            seq![s.take(i)] + comma_parts(s.skip(i + 1))
        },
    }
}

pub open spec fn trimmed_parts(parts: Seq<Seq<char>>) -> Seq<Seq<char>> {
    parts.map_values(|p: Seq<char>| trim(p))
}

/// The origins listed in `ALLOWED_ORIGINS`: its comma-separated parts,
/// trimmed (those that are not valid header values are then dropped).
pub fn origin_list(value: &str) -> (r: Vec<String>)
    ensures
        views(r@) == trimmed_parts(comma_parts(value@)),
{
    let mut out: Vec<String> = Vec::new();
    let mut rest: Vec<char> = chars_of(value);
    loop
        invariant
            trimmed_parts(comma_parts(value@)) == views(out@) + trimmed_parts(comma_parts(rest@)),
        decreases rest.len(),
    {
        let ghost before = views(out@);
        match char_from_exec(&rest, ',', 0) {
            None => {
                let part = string_of(&rest);
                out.push(trimmed(part.as_str()));
                assert(views(out@) =~= before.push(trim(rest@)));
                assert(trimmed_parts(comma_parts(rest@)) =~= seq![trim(rest@)]);
                assert(trimmed_parts(comma_parts(value@)) =~= views(out@));
                return out;
            },
            Some(i) => {
                proof {
                    lemma_char_from(rest@, ',', 0);
                }
                let part = string_of_range(&rest, 0, i);
                let tail = string_of_range(&rest, i + 1, rest.len());
                assert(part@ == rest@.take(i as int));
                assert(tail@ == rest@.skip(i + 1));
                out.push(trimmed(part.as_str()));
                assert(views(out@) =~= before.push(trim(rest@.take(i as int))));
                assert(trimmed_parts(comma_parts(rest@)) =~= seq![trim(rest@.take(i as int))]
                    + trimmed_parts(comma_parts(rest@.skip(i + 1))));
                rest = chars_of(tail.as_str());
                assert(trimmed_parts(comma_parts(value@)) =~= views(out@) + trimmed_parts(
                    comma_parts(rest@),
                ));
            },
        }
    }
}

} // verus!
