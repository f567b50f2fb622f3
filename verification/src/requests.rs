//! Query parameters of the public endpoints, what each asks for, and the
//! rate limit each endpoint applies.

use vstd::prelude::*;

use crate::cover::{cover_target, cover_target_of};
use crate::search::{classify_query, extract_target, query_kind, validate_extract_url, QueryKind};
use crate::status::HttpStatus;
use crate::stream::{resolve_stream_target, stream_target};
use crate::text::{append_str, chars_of, string_of};
use crate::throttle::{
    after_request, check_rate_limit, request_admitted, window_ms_of, AttemptTable,
    ENDPOINT_PRUNE_LIMIT,
};
use crate::tracks::{borrowed_opt, opt_view, str_opt};

verus! {

broadcast use vstd::string::group_string_axioms;

pub struct SearchParams {
    pub q: String,
}

pub struct ExtractParams {
    pub url: String,
}

pub struct StreamParams {
    pub url: Option<String>,
    pub id: Option<String>,
    pub ss: Option<u64>,
    pub title: Option<String>,
    pub artist: Option<String>,
}

pub struct CoverParams {
    pub url: String,
}

impl SearchParams {
    /// What the query asks for.
    pub fn kind(&self) -> (r: QueryKind)
        ensures
            r == query_kind(self.q@),
    {
        classify_query(self.q.as_str())
    }
}

impl ExtractParams {
    /// The link to extract from.
    pub fn target(&self) -> (r: Result<String, HttpStatus>)
        ensures
            match extract_target(self.url@) {
                Ok(t) => (r matches Ok(s) && s@ == t),
                Err(e) => r == Err::<String, HttpStatus>(e),
            },
    {
        validate_extract_url(self.url.as_str())
    }
}

impl StreamParams {
    /// The source to stream.
    pub fn target(&self) -> (r: Result<String, HttpStatus>)
        ensures
            match stream_target(
                opt_view(self.url),
                opt_view(self.id),
                opt_view(self.title),
                opt_view(self.artist),
            ) {
                Ok(t) => (r matches Ok(s) && s@ == t),
                Err(e) => r == Err::<String, HttpStatus>(e),
            },
    {
        resolve_stream_target(
            borrowed_opt(&self.url),
            borrowed_opt(&self.id),
            borrowed_opt(&self.title),
            borrowed_opt(&self.artist),
        )
    }
}

impl CoverParams {
    /// The image link to fetch.
    pub fn target(&self) -> (r: Result<String, HttpStatus>)
        ensures
            match cover_target_of(self.url@) {
                Ok(t) => (r matches Ok(s) && s@ == t),
                Err(e) => r == Err::<String, HttpStatus>(e),
            },
    {
        cover_target(self.url.as_str())
    }
}

// ---------------------------------------------------------------------------
// Rate limits
// ---------------------------------------------------------------------------

/// An endpoint with a rate limit of its own.
#[derive(PartialEq, Eq, Structural, Clone, Copy, Debug)]
pub enum Endpoint {
    /// Searches, per client address.
    Search,
    /// Link extraction, per client address.
    Extract,
    /// Streams, per client address.
    Stream,
    /// Recorded plays, per user.
    HistoryRecord,
}

/// Every endpoint limit counts over one minute.
pub const LIMIT_WINDOW_SECS: u64 = 60;

/// What a refused play record is answered with.
pub const HISTORY_RATE_LIMITED: &'static str = "Превышен лимит запросов истории";

/// Plays kept per user; older ones are dropped.
pub const HISTORY_KEPT: u32 = 500;

/// Plays listed per history request.
pub const HISTORY_PAGE: u32 = 60;

impl Endpoint {
    /// The key prefix of the endpoint's counters.
    pub open spec fn prefix(self) -> Seq<char> {
        match self {
            Endpoint::Search => "search:"@,
            Endpoint::Extract => "extract:"@,
            Endpoint::Stream => "stream:"@,
            Endpoint::HistoryRecord => "history_record:"@,
        }
    }

    /// Requests admitted per window.
    pub open spec fn max_requests(self) -> u32 {
        match self {
            Endpoint::Search => 30,
            Endpoint::Extract => 25,
            Endpoint::Stream => 40,
            Endpoint::HistoryRecord => 60,
        }
    }

    /// The counter key for `subject` (a client address or a user id).
    pub open spec fn key(self, subject: Seq<char>) -> Seq<char> {
        self.prefix() + subject
    }
}

fn endpoint_key(e: Endpoint, subject: &str) -> (r: String)
    ensures
        r@ == e.key(subject@),
{
    let mut out = match e {
        Endpoint::Search => chars_of("search:"),
        Endpoint::Extract => chars_of("extract:"),
        Endpoint::Stream => chars_of("stream:"),
        Endpoint::HistoryRecord => chars_of("history_record:"),
    };
    append_str(&mut out, subject);
    string_of(&out)
}

fn endpoint_max(e: Endpoint) -> (r: u32)
    ensures
        r == e.max_requests(),
{
    match e {
        Endpoint::Search => 30,
        Endpoint::Extract => 25,
        Endpoint::Stream => 40,
        Endpoint::HistoryRecord => 60,
    }
}

/// Counts a request to `endpoint` from `subject` at `now` (UNIX
/// milliseconds) and judges it against the endpoint's limit.
pub fn limit_request(table: &mut AttemptTable, endpoint: Endpoint, subject: &str, now: u64) -> (r:
    Result<(), HttpStatus>)
    requires
        old(table).wf(),
    ensures
        final(table).wf(),
        final(table)@ == after_request(
            old(table)@,
            endpoint.key(subject@),
            ENDPOINT_PRUNE_LIMIT as nat,
            now,
            window_ms_of(LIMIT_WINDOW_SECS),
        ),
        r is Ok <==> request_admitted(
            old(table)@,
            endpoint.key(subject@),
            ENDPOINT_PRUNE_LIMIT as nat,
            now,
            window_ms_of(LIMIT_WINDOW_SECS),
            endpoint.max_requests(),
        ),
        r matches Err(e) ==> e == HttpStatus::TooManyRequests,
{
    let key = endpoint_key(endpoint, subject);
    check_rate_limit(table, key.as_str(), endpoint_max(endpoint), LIMIT_WINDOW_SECS, now)
}

} // verus!
