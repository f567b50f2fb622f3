//! Reducing a video title to the words worth searching for.

use vstd::prelude::*;

use crate::text::{
    char_width, char_width_of, chars_of, find, find_chars, is_ascii_alnum, is_ws,
    is_whitespace_char, lemma_find, lemma_utf8_len_at_least_len, lemma_utf8_len_push, lowercase,
    string_of, to_lowercase, trim, trim_bounds, utf8_len,
};

verus! {

broadcast use vstd::string::group_string_axioms;

// ---------------------------------------------------------------------------
// Character properties from std
// ---------------------------------------------------------------------------

/// What `char::is_alphanumeric` answers (Unicode Alphabetic or Numeric).
pub uninterp spec fn unicode_alphanumeric(c: char) -> bool;

/// `char::is_alphanumeric`; on ASCII it is the ASCII letter/digit test.
#[verifier::external_body]
fn is_alphanumeric(c: char) -> (r: bool)
    ensures
        r == unicode_alphanumeric(c),
        (c as u32) < 128 ==> r == is_ascii_alnum(c),
{
    c.is_alphanumeric()
}

// ---------------------------------------------------------------------------
// The steps
// ---------------------------------------------------------------------------

/// Position of the first `c` in `s` at or after `from`.
pub open spec fn char_from(s: Seq<char>, c: char, from: int) -> Option<int>
    decreases s.len() - from,
{
    if from < 0 || from >= s.len() {
        None
    } else if s[from] == c {
        Some(from)
    } else {
        char_from(s, c, from + 1)
    }
}

pub proof fn lemma_char_from(s: Seq<char>, c: char, from: int)
    requires
        0 <= from,
    ensures
        char_from(s, c, from) matches Some(i) ==> from <= i < s.len() && s[i] == c && forall|k: int|
            from <= k < i ==> s[k] != c,
        char_from(s, c, from) is None ==> forall|k: int| from <= k < s.len() ==> s[k] != c,
    decreases s.len() - from,
{
    if from < s.len() && s[from] != c {
        lemma_char_from(s, c, from + 1);
    }
}

/// Replaces, from the left, each `open … close` group by one space; an
/// opening character without a later closing one ends the process.
pub open spec fn strip_groups(s: Seq<char>, open: char, close: char) -> Seq<char>
    decreases s.len(),
{
    if open == close {
        s
    } else {
        match char_from(s, open, 0) {
            None => s,
            Some(i) => match char_from(s, close, i) {
                None => s,
                Some(j) => {
                    proof {
                        lemma_char_from(s, open, 0);
                        lemma_char_from(s, close, i);
                    }
                    strip_groups(s.take(i) + seq![' '] + s.skip(j + 1), open, close)
                },
            },
        }
    }
}

/// Cuts at the first `|`.
pub open spec fn cut_at_pipe(s: Seq<char>) -> Seq<char> {
    match char_from(s, '|', 0) {
        Some(i) => s.take(i),
        None => s,
    }
}

/// Letters, digits, spaces and `-` are kept; anything else becomes a
/// space.
pub open spec fn sanitize_char(c: char) -> char {
    if unicode_alphanumeric(c) || c == ' ' || c == '-' {
        c
    } else {
        ' '
    }
}

pub open spec fn sanitized(s: Seq<char>) -> Seq<char> {
    s.map_values(|c: char| sanitize_char(c))
}

/// Each run of white space as one space.
pub open spec fn squeeze(s: Seq<char>) -> Seq<char>
    decreases s.len(),
{
    if s.len() == 0 {
        s
    } else {
        let p = squeeze(s.drop_last());
        if is_ws(s.last()) {
            if p.len() > 0 && p.last() == ' ' {
                p
            } else {
                p.push(' ')
            }
        } else {
            p.push(s.last())
        }
    }
}

/// The words of `s` joined by single spaces (`split_whitespace` then
/// `join(" ")`).
pub open spec fn collapse_spaces(s: Seq<char>) -> Seq<char> {
    trim(squeeze(s))
}

pub open spec fn noise_words() -> Seq<Seq<char>> {
    seq![
        "official music video"@,
        "official video"@,
        "official audio"@,
        "official"@,
        "lyric video"@,
        "lyrics"@,
        "visualizer"@,
        "audio"@,
        "clip officiel"@,
        "remastered"@,
        "4k"@,
        "hd"@,
        "hq"@,
        "live in"@,
        "full album"@,
        "сборник песен"@,
        "премьера клипа"@,
        "премьера песни"@,
        "клип"@,
        "новинки"@,
        "новинка"@,
        "хиты"@,
        "music video"@,
        "original mix"@,
        "extended mix"@,
        "topic"@,
    ]
}

// ---------------------------------------------------------------------------
// Executable steps
// ---------------------------------------------------------------------------

pub(crate) fn char_from_exec(s: &Vec<char>, c: char, from: usize) -> (r: Option<usize>)
    ensures
        r matches Some(i) ==> char_from(s@, c, from as int) == Some(i as int),
        r is None ==> char_from(s@, c, from as int) is None,
{
    let mut i = from;
    while i < s.len()
        invariant
            from <= i,
            char_from(s@, c, from as int) == char_from(s@, c, i as int),
        decreases s.len() - i,
    {
        if s[i] == c {
            return Some(i);
        }
        i = i + 1;
    }
    None
}

fn strip_groups_exec(s: Vec<char>, open: char, close: char) -> (r: Vec<char>)
    requires
        open != close,
    ensures
        r@ == strip_groups(s@, open, close),
{
    let mut cur = s;
    loop
        invariant
            open != close,
            strip_groups(cur@, open, close) == strip_groups(s@, open, close),
        decreases cur.len(),
    {
        let i = match char_from_exec(&cur, open, 0) {
            None => return cur,
            Some(i) => i,
        };
        let j = match char_from_exec(&cur, close, i) {
            None => return cur,
            Some(j) => j,
        };
        proof {
            lemma_char_from(cur@, open, 0);
            lemma_char_from(cur@, close, i as int);
        }
        let mut next: Vec<char> = Vec::new();
        let mut k: usize = 0;
        while k < i
            invariant
                k <= i < j < cur.len(),
                next@ == cur@.take(k as int),
            decreases i - k,
        {
            next.push(cur[k]);
            k = k + 1;
            assert(cur@.take(k as int) == cur@.take(k - 1).push(cur@[k - 1]));
        }
        next.push(' ');
        let mut m = j + 1;
        while m < cur.len()
            invariant
                j + 1 <= m <= cur.len(),
                next@ == cur@.take(i as int) + seq![' '] + cur@.subrange(j + 1, m as int),
            decreases cur.len() - m,
        {
            next.push(cur[m]);
            m = m + 1;
            assert(cur@.subrange(j + 1, m as int) == cur@.subrange(j + 1, m - 1).push(cur@[m - 1]));
        }
        assert(cur@.subrange(j + 1, cur@.len() as int) == cur@.skip(j + 1));
        cur = next;
    }
}

fn cut_at_pipe_exec(s: Vec<char>) -> (r: Vec<char>)
    ensures
        r@ == cut_at_pipe(s@),
{
    match char_from_exec(&s, '|', 0) {
        None => s,
        Some(i) => {
            proof {
                lemma_char_from(s@, '|', 0);
            }
            let mut r: Vec<char> = Vec::new();
            let mut k: usize = 0;
            while k < i
                invariant
                    k <= i < s.len(),
                    r@ == s@.take(k as int),
                decreases i - k,
            {
                r.push(s[k]);
                k = k + 1;
                assert(s@.take(k as int) == s@.take(k - 1).push(s@[k - 1]));
            }
            r
        },
    }
}

fn sanitize_exec(s: &Vec<char>) -> (r: Vec<char>)
    ensures
        r@ == sanitized(s@),
{
    let mut r: Vec<char> = Vec::new();
    let mut k: usize = 0;
    while k < s.len()
        invariant
            k <= s.len(),
            r@ == s@.take(k as int).map_values(|c: char| sanitize_char(c)),
        decreases s.len() - k,
    {
        let c = s[k];
        let keep = is_alphanumeric(c) || c == ' ' || c == '-';
        r.push(
            if keep {
                c
            } else {
                ' '
            },
        );
        k = k + 1;
        assert(r@ =~= s@.take(k as int).map_values(|c: char| sanitize_char(c)));
    }
    assert(s@.take(s.len() as int) == s@);
    r
}

fn splice_space(v: &Vec<char>, i: usize, n: usize) -> (r: Vec<char>)
    requires
        i + n <= v.len(),
    ensures
        r@ == v@.take(i as int) + seq![' '] + v@.skip(i + n),
{
    let mut r: Vec<char> = Vec::new();
    let mut k: usize = 0;
    while k < i
        invariant
            k <= i,
            i + n <= v.len(),
            r@ == v@.take(k as int),
        decreases i - k,
    {
        r.push(v[k]);
        k = k + 1;
        assert(v@.take(k as int) == v@.take(k - 1).push(v@[k - 1]));
    }
    r.push(' ');
    let mut m = i + n;
    while m < v.len()
        invariant
            i + n <= m <= v.len(),
            r@ == v@.take(i as int) + seq![' '] + v@.subrange(i + n, m as int),
        decreases v.len() - m,
    {
        r.push(v[m]);
        m = m + 1;
        assert(v@.subrange(i + n, m as int) == v@.subrange(i + n, m - 1).push(v@[m - 1]));
    }
    assert(v@.subrange(i + n, v@.len() as int) == v@.skip(i + n));
    r
}

fn squeeze_exec(s: &Vec<char>) -> (r: Vec<char>)
    ensures
        r@ == squeeze(s@),
{
    let mut r: Vec<char> = Vec::new();
    let mut k: usize = 0;
    while k < s.len()
        invariant
            k <= s.len(),
            r@ == squeeze(s@.take(k as int)),
        decreases s.len() - k,
    {
        let ghost pre = s@.take(k as int);
        assert(s@.take(k + 1).drop_last() == pre);
        assert(s@.take(k + 1).last() == s@[k as int]);
        let c = s[k];
        if is_whitespace_char(c) {
            if !(r.len() > 0 && r[r.len() - 1] == ' ') {
                r.push(' ');
            }
        } else {
            r.push(c);
        }
        k = k + 1;
    }
    assert(s@.take(s.len() as int) == s@);
    r
}

/// The noise words, in the order they are removed.
fn noise_word_list() -> (r: Vec<Vec<char>>)
    ensures
        r@.len() == noise_words().len(),
        forall|i: int| 0 <= i < r@.len() ==> (#[trigger] r@[i])@ == noise_words()[i],
{
    let mut r: Vec<Vec<char>> = Vec::new();
    r.push(chars_of("official music video"));
    r.push(chars_of("official video"));
    r.push(chars_of("official audio"));
    r.push(chars_of("official"));
    r.push(chars_of("lyric video"));
    r.push(chars_of("lyrics"));
    r.push(chars_of("visualizer"));
    r.push(chars_of("audio"));
    r.push(chars_of("clip officiel"));
    r.push(chars_of("remastered"));
    r.push(chars_of("4k"));
    r.push(chars_of("hd"));
    r.push(chars_of("hq"));
    r.push(chars_of("live in"));
    r.push(chars_of("full album"));
    r.push(chars_of("сборник песен"));
    r.push(chars_of("премьера клипа"));
    r.push(chars_of("премьера песни"));
    r.push(chars_of("клип"));
    r.push(chars_of("новинки"));
    r.push(chars_of("новинка"));
    r.push(chars_of("хиты"));
    r.push(chars_of("music video"));
    r.push(chars_of("original mix"));
    r.push(chars_of("extended mix"));
    r.push(chars_of("topic"));
    r
}

proof fn lemma_noise_words_long()
    ensures
        forall|i: int| 0 <= i < noise_words().len() ==> (#[trigger] noise_words()[i]).len() >= 2,
{
    reveal_strlit("official music video");
    reveal_strlit("official video");
    reveal_strlit("official audio");
    reveal_strlit("official");
    reveal_strlit("lyric video");
    reveal_strlit("lyrics");
    reveal_strlit("visualizer");
    reveal_strlit("audio");
    reveal_strlit("clip officiel");
    reveal_strlit("remastered");
    reveal_strlit("4k");
    reveal_strlit("hd");
    reveal_strlit("hq");
    reveal_strlit("live in");
    reveal_strlit("full album");
    reveal_strlit("сборник песен");
    reveal_strlit("премьера клипа");
    reveal_strlit("премьера песни");
    reveal_strlit("клип");
    reveal_strlit("новинки");
    reveal_strlit("новинка");
    reveal_strlit("хиты");
    reveal_strlit("music video");
    reveal_strlit("original mix");
    reveal_strlit("extended mix");
    reveal_strlit("topic");
}

/// The text after the bracket groups are stripped.
pub open spec fn s3_view(title: Seq<char>) -> Seq<char> {
    strip_groups(strip_groups(strip_groups(title, '[', ']'), '(', ')'), '{', '}')
}

/// The text noise words are looked for in: the title with its groups,
/// the part after `|` and its punctuation gone.
pub open spec fn noise_haystack(title: Seq<char>) -> Seq<char> {
    sanitized(cut_at_pipe(s3_view(title)))
}

fn collapse_exec(t: &Vec<char>) -> (r: String)
    ensures
        r@ == collapse_spaces(t@),
{
    let sq = squeeze_exec(t);
    let (a, b) = trim_bounds(&sq);
    let mut out = String::new();
    let mut i = a;
    while i < b
        invariant
            a <= i <= b <= sq.len(),
            out@ == sq@.subrange(a as int, i as int),
        decreases b - i,
    {
        out.push(sq[i]);
        i = i + 1;
    }
    out
}


// ---------------------------------------------------------------------------
// Noise words, removed by byte positions
// ---------------------------------------------------------------------------

/// The character index of `s` at which its UTF-8 encoding reaches byte
/// `b`, searching from character `k`; `None` when byte `b` falls inside a
/// character or past the end (it is then no character boundary of `s`).
pub open spec fn char_index_at(s: Seq<char>, b: int, k: int) -> Option<int>
    decreases s.len() - k,
{
    if k < 0 || k > s.len() {
        None
    } else if utf8_len(s.take(k)) == b {
        Some(k)
    } else if utf8_len(s.take(k)) > b || k == s.len() {
        None
    } else {
        char_index_at(s, b, k + 1)
    }
}

/// Removes each leftmost occurrence of `w` in the lower-cased text
/// `lower`, there and at the same byte range of `text`, each range
/// becoming one space (`String::replace_range` on both). `None` when a
/// range does not start and end on character boundaries of `text`, where
/// that call panics. The two texts differ in length where lower-casing
/// changes a character's width, so the ranges need not match.
pub open spec fn remove_word(text: Seq<char>, lower: Seq<char>, w: Seq<char>) -> Option<
    (Seq<char>, Seq<char>),
>
    decreases lower.len(),
{
    if w.len() < 2 {
        Some((text, lower))
    } else {
        match find(lower, w) {
            None => Some((text, lower)),
            Some(j) => {
                let b: int = utf8_len(lower.take(j)) as int;
                let e: int = b + utf8_len(w);
                match (char_index_at(text, b, 0), char_index_at(text, e, 0)) {
                    (Some(k1), Some(k2)) => {
                        proof {
                            lemma_find(lower, w);
                        }
                        remove_word(
                            text.take(k1) + seq![' '] + text.skip(k2),
                            lower.take(j) + seq![' '] + lower.skip(j + w.len()),
                            w,
                        )
                    },
                    _ => None,
                }
            },
        }
    }
}

/// `remove_word` for each of `words` in turn; `None` once one panics.
pub open spec fn remove_words(text: Seq<char>, lower: Seq<char>, words: Seq<Seq<char>>) -> Option<
    (Seq<char>, Seq<char>),
>
    decreases words.len(),
{
    if words.len() == 0 {
        Some((text, lower))
    } else {
        match remove_words(text, lower, words.drop_last()) {
            None => None,
            Some(r) => remove_word(r.0, r.1, words.last()),
        }
    }
}

/// The searchable core of a title: bracketed groups, the part after `|`
/// and punctuation removed; then the noise words, found in the lower-cased
/// text and cut by byte positions; then single spaces between the words.
/// `None` on the titles where a cut falls inside a character.
pub open spec fn title_cleaning(title: Seq<char>) -> Option<Seq<char>> {
    let c = noise_haystack(title);
    match remove_words(c, lowercase(c), noise_words()) {
        Some(r) => Some(collapse_spaces(r.0)),
        None => None,
    }
}

proof fn lemma_char_index_at(s: Seq<char>, b: int, k: int)
    requires
        0 <= k,
    ensures
        char_index_at(s, b, k) matches Some(i) ==> k <= i <= s.len() && utf8_len(s.take(i)) == b,
    decreases s.len() - k,
{
    if k <= s.len() && utf8_len(s.take(k)) != b && !(utf8_len(s.take(k)) > b || k == s.len()) {
        lemma_char_index_at(s, b, k + 1);
    }
}

/// Longer prefixes take more bytes.
proof fn lemma_prefix_bytes_grow(s: Seq<char>, i: int, j: int)
    requires
        0 <= i < j <= s.len(),
    ensures
        utf8_len(s.take(i)) < utf8_len(s.take(j)),
    decreases j - i,
{
    lemma_utf8_len_push(s.take(j - 1), s[j - 1]);
    assert(s.take(j - 1).push(s[j - 1]) == s.take(j));
    vstd::utf8::char_is_scalar(s[j - 1]);
    assert(char_width(s[j - 1]) >= 1);
    if i < j - 1 {
        lemma_prefix_bytes_grow(s, i, j - 1);
    }
}

proof fn lemma_remove_words_none(text: Seq<char>, lower: Seq<char>, words: Seq<Seq<char>>, k: int)
    requires
        0 <= k <= words.len(),
        remove_words(text, lower, words.take(k)) is None,
    ensures
        remove_words(text, lower, words) is None,
    decreases words.len() - k,
{
    if k < words.len() {
        assert(words.take(k + 1).drop_last() == words.take(k));
        lemma_remove_words_none(text, lower, words, k + 1);
    } else {
        assert(words.take(k) == words);
    }
}

/// Bytes in the UTF-8 encoding of `s[..k]`.
fn prefix_bytes(s: &Vec<char>, k: usize) -> (r: u128)
    requires
        k <= s.len(),
    ensures
        r == utf8_len(s@.take(k as int)),
        r <= 4 * k,
{
    let mut n: u128 = 0;
    let mut i: usize = 0;
    while i < k
        invariant
            i <= k <= s.len(),
            n == utf8_len(s@.take(i as int)),
            n <= 4 * i,
        decreases k - i,
    {
        proof {
            lemma_utf8_len_push(s@.take(i as int), s@[i as int]);
            assert(s@.take(i as int).push(s@[i as int]) == s@.take(i + 1));
        }
        let w = char_width_of(s[i]);
        n = n + w as u128;
        i = i + 1;
    }
    n
}

fn char_index_at_exec(s: &Vec<char>, b: u128) -> (r: Option<usize>)
    ensures
        r matches Some(k) ==> char_index_at(s@, b as int, 0) == Some(k as int),
        r is None ==> char_index_at(s@, b as int, 0) is None,
{
    let mut k: usize = 0;
    let mut n: u128 = 0;
    loop
        invariant
            k <= s.len(),
            n == utf8_len(s@.take(k as int)),
            n <= 4 * k,
            char_index_at(s@, b as int, 0) == char_index_at(s@, b as int, k as int),
        decreases s.len() - k,
    {
        if n == b {
            return Some(k);
        }
        if n > b || k == s.len() {
            return None;
        }
        proof {
            lemma_utf8_len_push(s@.take(k as int), s@[k as int]);
            assert(s@.take(k as int).push(s@[k as int]) == s@.take(k + 1));
        }
        let w = char_width_of(s[k]);
        n = n + w as u128;
        k = k + 1;
    }
}

fn remove_word_exec(text: Vec<char>, lower: Vec<char>, w: &Vec<char>) -> (r: Option<
    (Vec<char>, Vec<char>),
>)
    requires
        w.len() >= 2,
    ensures
        r matches Some(p) ==> remove_word(text@, lower@, w@) == Some((p.0@, p.1@)),
        r is None ==> remove_word(text@, lower@, w@) is None,
{
    let wb = prefix_bytes(w, w.len());
    proof {
        assert(w@.take(w.len() as int) == w@);
        lemma_utf8_len_at_least_len(w@);
    }
    let mut t = text;
    let mut l = lower;
    loop
        invariant
            w.len() >= 2,
            wb == utf8_len(w@),
            wb >= 2,
            wb <= 4 * w.len(),
            remove_word(t@, l@, w@) == remove_word(text@, lower@, w@),
        decreases l.len(),
    {
        match find_chars(&l, w) {
            None => return Some((t, l)),
            Some(j) => {
                proof {
                    lemma_find(l@, w@);
                }
                let b = prefix_bytes(&l, j);
                let e = b + wb;
                let k1 = match char_index_at_exec(&t, b) {
                    None => return None,
                    Some(k) => k,
                };
                let k2 = match char_index_at_exec(&t, e) {
                    None => return None,
                    Some(k) => k,
                };
                proof {
                    lemma_char_index_at(t@, b as int, 0);
                    lemma_char_index_at(t@, e as int, 0);
                    if k2 <= k1 {
                        if k2 < k1 {
                            lemma_prefix_bytes_grow(t@, k2 as int, k1 as int);
                        }
                        assert(false);
                    }
                }
                let nt = splice_space(&t, k1, k2 - k1);
                let nl = splice_space(&l, j, w.len());
                t = nt;
                l = nl;
            },
        }
    }
}

/// The cleaning of `title` (see `title_cleaning`); `None` on the titles
/// where a noise-word cut would fall inside a character.
pub fn clean_music_title_checked(title: &str) -> (r: Option<String>)
    ensures
        match title_cleaning(title@) {
            Some(c) => (r matches Some(s) && s@ == c),
            None => r is None,
        },
{
    let cs = chars_of(title);
    let s1 = strip_groups_exec(cs, '[', ']');
    let s2 = strip_groups_exec(s1, '(', ')');
    let s3 = strip_groups_exec(s2, '{', '}');
    let s4 = cut_at_pipe_exec(s3);
    let c = sanitize_exec(&s4);
    assert(c@ == noise_haystack(title@));
    let lower_text = to_lowercase(string_of(&c).as_str());
    let lower = chars_of(lower_text.as_str());
    let words = noise_word_list();
    proof {
        lemma_noise_words_long();
    }
    let ghost c0 = c@;
    let mut t = c;
    let mut l = lower;
    let mut k: usize = 0;
    while k < words.len()
        invariant
            k <= words.len(),
            words@.len() == noise_words().len(),
            forall|i: int| 0 <= i < words@.len() ==> (#[trigger] words@[i])@ == noise_words()[i],
            forall|i: int| 0 <= i < noise_words().len() ==> (#[trigger] noise_words()[i]).len() >= 2,
            c0 == noise_haystack(title@),
            remove_words(c0, lowercase(c0), noise_words().take(k as int)) == Some((t@, l@)),
        decreases words.len() - k,
    {
        assert(noise_words().take(k + 1).drop_last() == noise_words().take(k as int));
        assert(noise_words().take(k + 1).last() == noise_words()[k as int]);
        assert(words@[k as int]@ == noise_words()[k as int]);
        match remove_word_exec(t, l, &words[k]) {
            None => {
                proof {
                    lemma_remove_words_none(c0, lowercase(c0), noise_words(), k + 1);
                }
                return None;
            },
            Some((a, b)) => {
                t = a;
                l = b;
            },
        }
        k = k + 1;
    }
    assert(noise_words().take(words.len() as int) == noise_words());
    Some(collapse_exec(&t))
}

/// The searchable core of a video title: bracketed groups, the part after
/// `|`, punctuation and noise words removed, single spaces between the
/// remaining words. Noise words are looked for in the lower-cased text and
/// cut from the title at the same byte positions; titles on which such a
/// cut falls inside a character are left out, for there the removal
/// panics.
pub fn clean_music_title(title: &str) -> (r: String)
    requires
        title_cleaning(title@) is Some,
    ensures
        r@ == title_cleaning(title@)->0,
{
    match clean_music_title_checked(title) {
        Some(c) => c,
        None => {
            proof {
                assert(false);
            }
            String::new()
        },
    }
}

} // verus!
