//! Links the backend hands out and reads: percent-encoding, decimal
//! numbers, proxied stream and cover links, video ids.

use vstd::prelude::*;
use vstd::utf8::encode_utf8;

use crate::text::{
    append_chars, append_str, chars_of, contains, contains_chars, find, find_chars,
    lemma_find, occurs_at, starts_with, starts_with_chars, str_contains, str_starts_with, string_of,
    string_of_range, utf8_len, utf8_len_of,
};

verus! {

broadcast use vstd::string::group_string_axioms;

// ---------------------------------------------------------------------------
// Percent-encoding
// ---------------------------------------------------------------------------

/// Bytes left as they are: ASCII letters, digits, `-`, `.`, `_`, `~`.
pub open spec fn is_unreserved(b: u8) -> bool {
    ||| (48 <= b && b <= 57)
    ||| (65 <= b && b <= 90)
    ||| (97 <= b && b <= 122)
    ||| b == 45
    ||| b == 46
    ||| b == 95
    ||| b == 126
}

/// Upper-case hexadecimal digit of `d < 16`.
pub open spec fn hex_digit(d: u8) -> char {
    if d < 10 {
        ((48 + d) as u8) as char
    } else {
        ((55 + d) as u8) as char
    }
}

pub open spec fn encode_byte(b: u8) -> Seq<char> {
    if is_unreserved(b) {
        seq![b as char]
    } else {
        seq!['%', hex_digit(b >> 4u8), hex_digit(b & 15u8)]
    }
}

/// Percent-encoding of the UTF-8 bytes of `s`, as `urlencoding::encode`
/// does it: unreserved bytes kept, every other byte as `%XX`.
pub open spec fn url_encoded(s: Seq<char>) -> Seq<char> {
    encode_utf8(s).flat_map(|b: u8| encode_byte(b))
}

/// `urlencoding::encode`.
#[verifier::external_body]
fn url_encode(s: &str) -> (r: String)
    ensures
        r@ == url_encoded(s@),
{
    urlencoding::encode(s).into_owned()
}

/// Appends the percent-encoding of `s`.
pub fn append_encoded(out: &mut Vec<char>, s: &str)
    ensures
        final(out)@ == old(out)@ + url_encoded(s@),
{
    let e = url_encode(s);
    append_str(out, e.as_str());
}

// ---------------------------------------------------------------------------
// Decimal numbers
// ---------------------------------------------------------------------------

pub open spec fn digit_char(d: nat) -> char {
    ((48 + d) as u8) as char
}

/// Decimal digits of `n`, most significant first, no leading zeros.
pub open spec fn decimal(n: nat) -> Seq<char>
    decreases n,
{
    if n < 10 {
        seq![digit_char(n)]
    } else {
        decimal(n / 10).push(digit_char(n % 10))
    }
}

/// What `to_string` gives for a signed integer.
pub open spec fn signed_decimal(v: int) -> Seq<char> {
    if v < 0 {
        seq!['-'] + decimal((-v) as nat)
    } else {
        decimal(v as nat)
    }
}

proof fn lemma_reverse_push(s: Seq<char>, c: char)
    ensures
        s.push(c).reverse() == seq![c] + s.reverse(),
{
    assert(s.push(c).reverse() =~= seq![c] + s.reverse());
}

/// Appends the decimal digits of `n`.
pub fn append_decimal(out: &mut Vec<char>, n: u64)
    ensures
        final(out)@ == old(out)@ + decimal(n as nat),
{
    let mut q = n;
    let mut rev: Vec<char> = Vec::new();
    while q >= 10
        invariant
            decimal(n as nat) == decimal(q as nat) + rev@.reverse(),
        decreases q,
    {
        let d = q % 10;
        proof {
            lemma_reverse_push(rev@, digit_char(d as nat));
            assert(decimal(q as nat) == decimal((q / 10) as nat).push(digit_char((q % 10) as nat)));
            assert(decimal((q / 10) as nat).push(digit_char(d as nat)) + rev@.reverse()
                =~= decimal((q / 10) as nat) + (seq![digit_char(d as nat)] + rev@.reverse()));
        }
        rev.push(((48 + d) as u8) as char);
        q = q / 10;
    }
    proof {
        lemma_reverse_push(rev@, digit_char(q as nat));
    }
    rev.push(((48 + q) as u8) as char);
    assert(decimal(n as nat) == rev@.reverse());
    let mut i = rev.len();
    let ghost start = out@;
    while i > 0
        invariant
            i <= rev.len(),
            out@ == start + rev@.reverse().take((rev.len() - i) as int),
        decreases i,
    {
        i = i - 1;
        proof {
            assert(rev@.reverse().take((rev.len() - i) as int) =~= rev@.reverse().take(
                (rev.len() - i - 1) as int,
            ).push(rev@[i as int]));
        }
        out.push(rev[i]);
    }
    assert(rev@.reverse().take(rev.len() as int) == rev@.reverse());
}

/// Appends what `v.to_string()` gives.
pub fn append_signed_decimal(out: &mut Vec<char>, v: i64)
    ensures
        final(out)@ == old(out)@ + signed_decimal(v as int),
{
    if v < 0 {
        out.push('-');
        let m: u64 = if v == i64::MIN {
            9223372036854775808u64
        } else {
            (-v) as u64
        };
        let ghost mid = out@;
        append_decimal(out, m);
        assert(out@ =~= old(out)@ + (seq!['-'] + decimal((-v) as nat)));
    } else {
        append_decimal(out, v as u64);
    }
}

// ---------------------------------------------------------------------------
// Backend links
// ---------------------------------------------------------------------------

/// The production backend that answers when this one finds nothing.
pub const CLOUD_FALLBACK_URL: &'static str = "https://signal-audio-backend-production.up.railway.app";

pub open spec fn watch_prefix() -> Seq<char> {
    "https://www.youtube.com/watch?v="@
}

/// Canonical YouTube page of a video id.
pub open spec fn watch_url(id: Seq<char>) -> Seq<char> {
    watch_prefix() + id
}

pub fn append_watch_url(out: &mut Vec<char>, id: &str)
    ensures
        final(out)@ == old(out)@ + watch_url(id@),
{
    append_str(out, "https://www.youtube.com/watch?v=");
    append_str(out, id);
    assert(out@ =~= old(out)@ + watch_url(id@));
}

/// `{base}/api/stream?url={encoded target}`.
pub open spec fn stream_link(base: Seq<char>, target: Seq<char>) -> Seq<char> {
    base + "/api/stream?url="@ + url_encoded(target)
}

/// `{base}/api/cover?url={encoded image url}`.
pub open spec fn cover_link(base: Seq<char>, image: Seq<char>) -> Seq<char> {
    base + "/api/cover?url="@ + url_encoded(image)
}

pub fn append_stream_link(out: &mut Vec<char>, base: &str, target: &str)
    ensures
        final(out)@ == old(out)@ + stream_link(base@, target@),
{
    append_str(out, base);
    append_str(out, "/api/stream?url=");
    append_encoded(out, target);
    assert(out@ =~= old(out)@ + stream_link(base@, target@));
}

pub fn cover_link_of(base: &str, image: &str) -> (r: String)
    ensures
        r@ == cover_link(base@, image@),
{
    let mut v: Vec<char> = Vec::new();
    append_str(&mut v, base);
    append_str(&mut v, "/api/cover?url=");
    append_encoded(&mut v, image);
    assert(v@ =~= cover_link(base@, image@));
    string_of(&v)
}

pub open spec fn stream_marker() -> Seq<char> {
    "/api/stream"@
}

/// A link handed out by another backend, re-pointed at `base`: from the
/// first `/api/stream` on, prefixed with `base`; links without one are
/// kept.
pub open spec fn rebased(link: Seq<char>, base: Seq<char>) -> Seq<char> {
    match find(link, stream_marker()) {
        Some(i) => base + link.skip(i),
        None => link,
    }
}

pub fn rebase_stream_url(link: &str, base: &str) -> (r: String)
    ensures
        r@ == rebased(link@, base@),
{
    let lc = chars_of(link);
    let marker = chars_of("/api/stream");
    match find_chars(&lc, &marker) {
        Some(i) => {
            proof {
                lemma_find(lc@, marker@);
                assert(occurs_at(lc@, marker@, i as int));
            }
            let mut v = chars_of(base);
            let tail = string_of_range(&lc, i, lc.len());
            append_str(&mut v, tail.as_str());
            assert(lc@.subrange(i as int, lc@.len() as int) == lc@.skip(i as int));
            string_of(&v)
        },
        None => link.to_owned(),
    }
}

/// `{CLOUD_FALLBACK_URL}/api/search?q={encoded query}`.
pub fn cloud_search_url(query: &str) -> (r: String)
    ensures
        r@ == CLOUD_FALLBACK_URL@ + "/api/search?q="@ + url_encoded(query@),
{
    let mut v = chars_of(CLOUD_FALLBACK_URL);
    append_str(&mut v, "/api/search?q=");
    append_encoded(&mut v, query);
    assert(v@ =~= CLOUD_FALLBACK_URL@ + "/api/search?q="@ + url_encoded(query@));
    string_of(&v)
}

/// `{CLOUD_FALLBACK_URL}/api/extract?url={encoded url}`.
pub fn cloud_extract_url(url: &str) -> (r: String)
    ensures
        r@ == CLOUD_FALLBACK_URL@ + "/api/extract?url="@ + url_encoded(url@),
{
    let mut v = chars_of(CLOUD_FALLBACK_URL);
    append_str(&mut v, "/api/extract?url=");
    append_encoded(&mut v, url);
    assert(v@ =~= CLOUD_FALLBACK_URL@ + "/api/extract?url="@ + url_encoded(url@));
    string_of(&v)
}

// ---------------------------------------------------------------------------
// URL shapes
// ---------------------------------------------------------------------------

/// Starts with `http://` or `https://`.
pub open spec fn is_web_url(s: Seq<char>) -> bool {
    starts_with(s, "http://"@) || starts_with(s, "https://"@)
}

pub fn web_url(s: &str) -> (r: bool)
    ensures
        r == is_web_url(s@),
{
    str_starts_with(s, "http://") || str_starts_with(s, "https://")
}

/// Mentions a music host whose links are fetched without the SSRF check.
pub open spec fn mentions_trusted_host(s: Seq<char>) -> bool {
    contains(s, "youtube.com"@) || contains(s, "youtu.be"@) || contains(s, "soundcloud.com"@)
}

pub fn trusted_host(s: &str) -> (r: bool)
    ensures
        r == mentions_trusted_host(s@),
{
    str_contains(s, "youtube.com") || str_contains(s, "youtu.be") || str_contains(s, "soundcloud.com")
}

/// A web URL on an untrusted host: its target must pass the SSRF check
/// before anything fetches it.
pub open spec fn needs_ssrf_check(s: Seq<char>) -> bool {
    is_web_url(s) && !mentions_trusted_host(s)
}

pub fn requires_ssrf_check(s: &str) -> (r: bool)
    ensures
        r == needs_ssrf_check(s@),
{
    web_url(s) && !trusted_host(s)
}

/// Characters that end a video id inside a URL.
pub open spec fn is_id_end(c: char) -> bool {
    c == '&' || c == '?' || c == '#' || c == '/'
}

/// Index of the first id-ending character of `s` (its length if none).
pub open spec fn id_end(s: Seq<char>) -> int
    decreases s.len(),
{
    if s.len() == 0 {
        0
    } else if is_id_end(s[0]) {
        0
    } else {
        1 + id_end(s.drop_first())
    }
}

proof fn lemma_id_end(s: Seq<char>)
    ensures
        0 <= id_end(s) <= s.len(),
        forall|k: int| 0 <= k < id_end(s) ==> !is_id_end(#[trigger] s[k]),
        id_end(s) < s.len() ==> is_id_end(s[id_end(s)]),
    decreases s.len(),
{
    if s.len() > 0 && !is_id_end(s[0]) {
        lemma_id_end(s.drop_first());
        assert forall|k: int| 0 <= k < id_end(s) implies !is_id_end(#[trigger] s[k]) by {
            if k > 0 {
                assert(s[k] == s.drop_first()[k - 1]);
            }
        }
    }
}

fn id_end_index(s: &Vec<char>, from: usize) -> (r: usize)
    requires
        from <= s.len(),
    ensures
        from + id_end(s@.skip(from as int)) == r,
        r <= s.len(),
{
    let mut i = from;
    proof {
        lemma_id_end(s@.skip(from as int));
    }
    while i < s.len() && !(s[i] == '&' || s[i] == '?' || s[i] == '#' || s[i] == '/')
        invariant
            from <= i <= s.len(),
            forall|k: int| from <= k < i ==> !is_id_end(#[trigger] s@[k]),
        decreases s.len() - i,
    {
        i = i + 1;
    }
    proof {
        let t = s@.skip(from as int);
        lemma_id_end(t);
        let e = id_end(t);
        assert forall|k: int| 0 <= k < i - from implies !is_id_end(#[trigger] t[k]) by {
            assert(t[k] == s@[k + from]);
        }
        if e < i - from {
            assert(t[e] == s@[e + from]);
        }
        if i < s.len() {
            assert(t[i - from] == s@[i as int]);
            assert(e <= i - from);
        }
    }
    i
}

/// The id text after the marker found at `idx`: up to the next `&`, `?`,
/// `#` or `/`.
pub open spec fn id_after(url: Seq<char>, marker: Seq<char>) -> Option<Seq<char>> {
    match find(url, marker) {
        Some(idx) => {
            let rest = url.skip(idx + marker.len());
            Some(rest.take(id_end(rest)))
        },
        None => None,
    }
}

/// An id candidate is kept when non-empty and at most 20 bytes long.
pub open spec fn usable_id(id: Seq<char>) -> bool {
    id.len() > 0 && utf8_len(id) <= 20
}

/// The video id of a YouTube link: after `v=`, else after `youtu.be/`,
/// when usable.
pub open spec fn video_id_of(url: Seq<char>) -> Option<Seq<char>> {
    if id_after(url, "v="@) matches Some(id) && usable_id(id) {
        id_after(url, "v="@)
    } else if id_after(url, "youtu.be/"@) matches Some(id) && usable_id(id) {
        id_after(url, "youtu.be/"@)
    } else {
        None
    }
}

pub(crate) fn id_after_of(url: &Vec<char>, marker: &str) -> (r: Option<Vec<char>>)
    ensures
        match id_after(url@, marker@) {
            Some(id) => r matches Some(v) && v@ == id,
            None => r is None,
        },
{
    let m = chars_of(marker);
    match find_chars(url, &m) {
        None => None,
        Some(idx) => {
            assert(find(url@, m@) == Some(idx as int));
            proof {
                lemma_find(url@, m@);
            }
            assert(occurs_at(url@, m@, idx as int));
            assert(idx + m@.len() <= url@.len());
            let ml = m.len();
            assert(ml == m@.len());
            assert(idx + ml <= url.len());
            let start = idx + ml;
            let end = id_end_index(url, start);
            proof {
                lemma_id_end(url@.skip(start as int));
            }
            let mut v: Vec<char> = Vec::new();
            let mut k = start;
            while k < end
                invariant
                    start <= k <= end <= url.len(),
                    v@ == url@.subrange(start as int, k as int),
                decreases end - k,
            {
                v.push(url[k]);
                k = k + 1;
            }
            assert(url@.skip(start as int).take(id_end(url@.skip(start as int))) =~= url@.subrange(
                start as int,
                end as int,
            ));
            Some(v)
        },
    }
}

fn usable_id_of(id: &Vec<char>) -> (r: bool)
    ensures
        r == usable_id(id@),
{
    if id.len() == 0 {
        return false;
    }
    if id.len() > 20 {
        proof {
            lemma_utf8_len_ge(id@);
        }
        return false;
    }
    utf8_len_of(id) <= 20
}

proof fn lemma_utf8_len_ge(s: Seq<char>)
    ensures
        utf8_len(s) >= s.len(),
    decreases s.len(),
{
    if s.len() > 0 {
        lemma_utf8_len_ge(s.drop_last());
        crate::text::lemma_utf8_len_push(s.drop_last(), s.last());
        assert(s.drop_last().push(s.last()) == s);
    }
}

/// The video id carried by a YouTube watch or short link.
pub fn extract_video_id(url: &str) -> (r: Option<String>)
    ensures
        match video_id_of(url@) {
            Some(id) => r matches Some(s) && s@ == id,
            None => r is None,
        },
{
    let u = chars_of(url);
    if let Some(id) = id_after_of(&u, "v=") {
        if usable_id_of(&id) {
            return Some(string_of(&id));
        }
    }
    if let Some(id) = id_after_of(&u, "youtu.be/") {
        if usable_id_of(&id) {
            return Some(string_of(&id));
        }
    }
    None
}

/// An extracted id never holds an id-ending character.
pub proof fn law_video_id_is_one_segment(url: Seq<char>)
    ensures
        video_id_of(url) matches Some(id) ==> usable_id(id) && forall|k: int|
            0 <= k < id.len() ==> !is_id_end(#[trigger] id[k]),
{
    if let Some(idx) = find(url, "v="@) {
        lemma_id_end(url.skip(idx + 2));
    }
    if let Some(idx) = find(url, "youtu.be/"@) {
        lemma_id_end(url.skip(idx + 9));
    }
    reveal_strlit("v=");
    reveal_strlit("youtu.be/");
}

} // verus!
