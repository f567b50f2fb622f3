//! The cover-image proxy: which links it fetches and which replies it
//! passes on.

use vstd::prelude::*;

use crate::status::HttpStatus;
use crate::text::{lowercase, same_chars_str, starts_with, str_starts_with, to_lowercase, trim, trimmed};

verus! {

broadcast use vstd::string::group_string_axioms;

/// What the health check answers.
pub const HEALTH_TEXT: &'static str = "Recro // Rust Engine Online";

pub fn health_check() -> (r: &'static str)
    ensures
        r == HEALTH_TEXT,
{
    HEALTH_TEXT
}

/// The largest image passed on: 10 MiB.
pub const COVER_MAX_BYTES: u64 = 10485760;

/// Content type assumed when the reply names none.
pub const DEFAULT_IMAGE_TYPE: &'static str = "image/jpeg";

/// Cache policy of a passed-on image.
pub const COVER_CACHE_CONTROL: &'static str = "public, max-age=604800, immutable";

/// The link to fetch: trimmed, and an `http://` or `https://` link.
pub open spec fn cover_target_of(url: Seq<char>) -> Result<Seq<char>, HttpStatus> {
    let t = trim(url);
    if t.len() == 0 || !(starts_with(t, "http://"@) || starts_with(t, "https://"@)) {
        Err(HttpStatus::BadRequest)
    } else {
        Ok(t)
    }
}

pub fn cover_target(url: &str) -> (r: Result<String, HttpStatus>)
    ensures
        match cover_target_of(url@) {
            Ok(t) => (r matches Ok(s) && s@ == t),
            Err(e) => r == Err::<String, HttpStatus>(e),
        },
{
    let t = trimmed(url);
    if t.as_str().is_empty() || !(str_starts_with(t.as_str(), "http://") || str_starts_with(
        t.as_str(),
        "https://",
    )) {
        Err(HttpStatus::BadRequest)
    } else {
        Ok(t)
    }
}

/// A content type passed on: any `image/…` type or raw bytes, judged in
/// lower case.
pub open spec fn image_type_accepted(content_type: Seq<char>) -> bool {
    let l = lowercase(content_type);
    starts_with(l, "image/"@) || l == "application/octet-stream"@
}

/// Checks a reply before its body is read: its declared length (when it
/// declares one) and its content type (`image/jpeg` when it names none).
/// Gives the content type to answer with.
pub fn check_cover_reply(declared_length: Option<u64>, content_type: Option<&str>) -> (r: Result<
    String,
    HttpStatus,
>)
    ensures
        (declared_length matches Some(n) && n > COVER_MAX_BYTES) ==> r == Err::<String, HttpStatus>(
            HttpStatus::PayloadTooLarge,
        ),
        !(declared_length matches Some(n) && n > COVER_MAX_BYTES) ==> ({
            let ct = match content_type {
                Some(c) => c@,
                None => DEFAULT_IMAGE_TYPE@,
            };
            &&& image_type_accepted(ct) ==> (r matches Ok(s) && s@ == ct)
            &&& !image_type_accepted(ct) ==> r == Err::<String, HttpStatus>(HttpStatus::BadRequest)
        }),
{
    if let Some(n) = declared_length {
        if n > COVER_MAX_BYTES {
            return Err(HttpStatus::PayloadTooLarge);
        }
    }
    let ct: &str = match content_type {
        Some(c) => c,
        None => DEFAULT_IMAGE_TYPE,
    };
    let lower = to_lowercase(ct);
    if str_starts_with(lower.as_str(), "image/") || same_chars_str(
        lower.as_str(),
        "application/octet-stream",
    ) {
        Ok(ct.to_owned())
    } else {
        Err(HttpStatus::BadRequest)
    }
}

/// Checks the size of a body that was read.
pub fn check_cover_body(length: usize) -> (r: Result<(), HttpStatus>)
    ensures
        r is Ok <==> length <= COVER_MAX_BYTES,
        r matches Err(e) ==> e == HttpStatus::PayloadTooLarge,
{
    if length as u64 > COVER_MAX_BYTES {
        Err(HttpStatus::PayloadTooLarge)
    } else {
        Ok(())
    }
}

} // verus!
