//! The course of a stream request, as a state machine: the caller does
//! the outside work each action asks for (run the extractor, look up a
//! title, ask the mirrors, relay the cloud instance, transcode) and
//! reports what came of it; the job decides what comes next.
//!
//! A direct audio link is transcoded at once. A SoundCloud target is
//! resolved by the extractor without and then with cookies, then by
//! SoundCloud searches for its title and artist. Any other (YouTube)
//! target is resolved by the extractor, then by SoundCloud searches for
//! its title (looked up when the request gave none), then through the
//! Invidious mirrors, then by relaying the cloud instance. The first
//! audio link found is transcoded; when none is, the answer is 404.

use vstd::prelude::*;

use crate::extractor::{link_lookup, link_lookup_args, oembed_link, oembed_url};
use crate::search::views;
use crate::stream::{
    cloud_stream_link, cloud_stream_url, ffmpeg_args, mirror_video_id, mirror_video_id_of,
    route_of, soundcloud_fallback_queries, soundcloud_names, soundcloud_names_of,
    soundcloud_queries, stream_route, transcoder_args, youtube_fallback_queries,
    youtube_fallback_searches, StreamRoute,
};
use crate::text::{trim, trimmed};
use crate::tracks::{borrowed_opt, clone_opt, opt_view, str_opt};

verus! {

broadcast use vstd::string::group_string_axioms;

// ---------------------------------------------------------------------------
// Actions and events
// ---------------------------------------------------------------------------

/// One extractor run: its arguments (after the common options), whether
/// the cookie file is passed, and how long it may take.
pub struct Attempt {
    pub args: Vec<String>,
    pub cookies: bool,
    pub timeout_ms: u64,
}

#[verifier::ext_equal]
pub struct AttemptView {
    pub args: Seq<Seq<char>>,
    pub cookies: bool,
    pub timeout_ms: u64,
}

impl View for Attempt {
    type V = AttemptView;

    open spec fn view(&self) -> AttemptView {
        AttemptView { args: views(self.args@), cookies: self.cookies, timeout_ms: self.timeout_ms }
    }
}

pub open spec fn attempt_views(v: Seq<Attempt>) -> Seq<AttemptView> {
    v.map_values(|a: Attempt| a@)
}

/// What the caller is asked to do next.
pub enum StreamAction {
    /// Run the extractor and report the audio link it printed.
    Extract(Attempt),
    /// Fetch this oEmbed record and report its title and author.
    LookUpTitle(String),
    /// Ask the mirrors for an audio link of this video and report it.
    AskMirrors(String),
    /// Relay the stream answered at this link and report whether it was.
    RelayCloud(String),
    /// Transcode with these arguments and answer the result.
    Transcode(Vec<String>),
    /// Answer 404.
    NotFound,
    /// Nothing more: the answer was given.
    Done,
}

#[verifier::ext_equal]
pub enum ActionView {
    Extract(AttemptView),
    LookUpTitle(Seq<char>),
    AskMirrors(Seq<char>),
    RelayCloud(Seq<char>),
    Transcode(Seq<Seq<char>>),
    NotFound,
    Done,
}

impl View for StreamAction {
    type V = ActionView;

    open spec fn view(&self) -> ActionView {
        match self {
            StreamAction::Extract(a) => ActionView::Extract(a@),
            StreamAction::LookUpTitle(u) => ActionView::LookUpTitle(u@),
            StreamAction::AskMirrors(v) => ActionView::AskMirrors(v@),
            StreamAction::RelayCloud(u) => ActionView::RelayCloud(u@),
            StreamAction::Transcode(a) => ActionView::Transcode(views(a@)),
            StreamAction::NotFound => ActionView::NotFound,
            StreamAction::Done => ActionView::Done,
        }
    }
}

/// What came of the last action.
pub enum StreamEvent {
    /// The audio link an extractor run or the mirrors gave, if any.
    Link(Option<String>),
    /// The title and the author the oEmbed record gave, each if present.
    Titles(Option<String>, Option<String>),
    /// Whether the cloud instance answered the relayed stream.
    Relayed(bool),
}

pub enum EventView {
    Link(Option<Seq<char>>),
    Titles(Option<Seq<char>>, Option<Seq<char>>),
    Relayed(bool),
}

impl View for StreamEvent {
    type V = EventView;

    open spec fn view(&self) -> EventView {
        match self {
            StreamEvent::Link(u) => EventView::Link(opt_view(*u)),
            StreamEvent::Titles(t, a) => EventView::Titles(opt_view(*t), opt_view(*a)),
            StreamEvent::Relayed(b) => EventView::Relayed(*b),
        }
    }
}

// ---------------------------------------------------------------------------
// The job
// ---------------------------------------------------------------------------

/// What the job is waiting for.
#[derive(PartialEq, Eq, Structural, Clone, Copy, Debug)]
pub enum Phase {
    /// The outcome of the attempt at `pos` of the queue.
    Attempts,
    /// The oEmbed title and author.
    TitleLookup,
    /// The mirrors' link.
    Mirrors,
    /// The cloud relay's outcome.
    Cloud,
    /// Nothing: the answer is decided.
    Finished,
}

/// What follows when the attempt queue runs out.
#[derive(PartialEq, Eq, Structural, Clone, Copy, Debug)]
pub enum AfterQueue {
    /// 404.
    GiveUp,
    /// The title lookup when no title is known, else the title searches.
    TitleOrSearches,
    /// The mirrors, then the cloud relay.
    MirrorsOrCloud,
}

pub struct StreamJob {
    target: String,
    ss: Option<u64>,
    /// The trimmed requested title and artist (empty when absent), or
    /// what the title lookup gave.
    title: String,
    artist: String,
    /// The requested title and artist as sent.
    raw_title: Option<String>,
    raw_artist: Option<String>,
    cloud_env: bool,
    queue: Vec<Attempt>,
    pos: usize,
    after: AfterQueue,
    phase: Phase,
}

#[verifier::ext_equal]
pub struct JobView {
    pub target: Seq<char>,
    pub ss: Option<u64>,
    pub title: Seq<char>,
    pub artist: Seq<char>,
    pub raw_title: Option<Seq<char>>,
    pub raw_artist: Option<Seq<char>>,
    pub cloud_env: bool,
    pub queue: Seq<AttemptView>,
    pub pos: nat,
    pub after: AfterQueue,
    pub phase: Phase,
}

impl View for StreamJob {
    type V = JobView;

    closed spec fn view(&self) -> JobView {
        JobView {
            target: self.target@,
            ss: self.ss,
            title: self.title@,
            artist: self.artist@,
            raw_title: opt_view(self.raw_title),
            raw_artist: opt_view(self.raw_artist),
            cloud_env: self.cloud_env,
            queue: attempt_views(self.queue@),
            pos: self.pos as nat,
            after: self.after,
            phase: self.phase,
        }
    }
}

impl StreamJob {
    /// While attempts run, `pos` names one of them.
    pub open spec fn wf(&self) -> bool {
        self@.phase == Phase::Attempts ==> self@.pos < self@.queue.len()
    }
}

// ---------------------------------------------------------------------------
// The course, as spec functions over views
// ---------------------------------------------------------------------------

pub open spec fn text_of(o: Option<Seq<char>>) -> Seq<char> {
    match o {
        Some(s) => s,
        None => Seq::empty(),
    }
}

/// Extractor runs for SoundCloud searches: without cookies, six seconds
/// for the first and five for the next.
pub open spec fn search_attempts(queries: Seq<Seq<char>>) -> Seq<AttemptView> {
    Seq::new(
        queries.len(),
        |i: int|
            AttemptView {
                args: link_lookup(queries[i], false),
                cookies: false,
                timeout_ms: if i == 0 {
                    6000
                } else {
                    5000
                },
            },
    )
}

/// The runs tried for a SoundCloud target: the link without cookies
/// (six seconds), with cookies (four seconds), then the searches for its
/// title and artist.
pub open spec fn soundcloud_attempts(target: Seq<char>, title: Seq<char>, artist: Seq<char>) -> Seq<
    AttemptView,
> {
    let names = soundcloud_names(target, title, artist);
    seq![
        AttemptView { args: link_lookup(target, false), cookies: false, timeout_ms: 6000 },
        AttemptView { args: link_lookup(target, false), cookies: true, timeout_ms: 4000 },
    ] + search_attempts(soundcloud_queries(names.0, names.1))
}

/// The run tried first for a YouTube target: with cookies, three seconds.
pub open spec fn youtube_attempt(target: Seq<char>) -> AttemptView {
    AttemptView { args: link_lookup(target, true), cookies: true, timeout_ms: 3000 }
}

pub open spec fn finish(j: JobView, a: ActionView) -> (JobView, ActionView) {
    (JobView { phase: Phase::Finished, ..j }, a)
}

/// An audio link was found: it is transcoded.
pub open spec fn found(j: JobView, url: Seq<char>) -> (JobView, ActionView) {
    finish(j, ActionView::Transcode(transcoder_args(url, j.ss)))
}

/// The cloud relay when this is not the cloud instance, else 404.
pub open spec fn cloud_step(j: JobView) -> (JobView, ActionView) {
    if !j.cloud_env {
        (
            JobView { phase: Phase::Cloud, ..j },
            ActionView::RelayCloud(cloud_stream_link(j.target, j.ss, j.raw_title, j.raw_artist)),
        )
    } else {
        finish(j, ActionView::NotFound)
    }
}

/// The mirrors when the target names a video, else the cloud step.
pub open spec fn mirror_step(j: JobView) -> (JobView, ActionView) {
    match mirror_video_id(j.target) {
        Some(v) => (JobView { phase: Phase::Mirrors, ..j }, ActionView::AskMirrors(v)),
        None => cloud_step(j),
    }
}

/// The SoundCloud searches for the known title and artist, then the
/// mirror step.
pub open spec fn search_step(j: JobView) -> (JobView, ActionView) {
    let q = search_attempts(youtube_fallback_queries(j.title, j.artist));
    if q.len() > 0 {
        (
            JobView { queue: q, pos: 0, after: AfterQueue::MirrorsOrCloud, phase: Phase::Attempts, ..j },
            ActionView::Extract(q[0]),
        )
    } else {
        mirror_step(JobView { queue: q, pos: 0, after: AfterQueue::MirrorsOrCloud, ..j })
    }
}

/// When the queue runs out.
pub open spec fn after_queue(j: JobView) -> (JobView, ActionView) {
    match j.after {
        AfterQueue::GiveUp => finish(j, ActionView::NotFound),
        AfterQueue::TitleOrSearches => if j.title.len() == 0 {
            (JobView { phase: Phase::TitleLookup, ..j }, ActionView::LookUpTitle(oembed_link(j.target)))
        } else {
            search_step(j)
        },
        AfterQueue::MirrorsOrCloud => mirror_step(j),
    }
}

/// The next attempt of the queue, or what follows it.
pub open spec fn next_attempt(j: JobView) -> (JobView, ActionView) {
    if j.pos + 1 < j.queue.len() {
        (JobView { pos: j.pos + 1, ..j }, ActionView::Extract(j.queue[j.pos + 1 as int]))
    } else {
        after_queue(j)
    }
}

/// The job after one event, and the next action.
pub open spec fn step(j: JobView, e: EventView) -> (JobView, ActionView) {
    match j.phase {
        Phase::Attempts => match e {
            EventView::Link(Some(u)) => found(j, u),
            _ => next_attempt(j),
        },
        Phase::TitleLookup => match e {
            EventView::Titles(t, a) => search_step(
                JobView {
                    title: match t {
                        Some(x) => trim(x),
                        None => j.title,
                    },
                    artist: match a {
                        Some(x) => trim(x),
                        None => j.artist,
                    },
                    ..j
                },
            ),
            _ => search_step(j),
        },
        Phase::Mirrors => match e {
            EventView::Link(Some(u)) => found(j, u),
            _ => cloud_step(j),
        },
        Phase::Cloud => match e {
            EventView::Relayed(true) => finish(j, ActionView::Done),
            _ => finish(j, ActionView::NotFound),
        },
        Phase::Finished => (j, ActionView::Done),
    }
}

/// The job for a stream of `target` (already checked), and its first
/// action.
pub open spec fn begin(
    target: Seq<char>,
    ss: Option<u64>,
    title: Option<Seq<char>>,
    artist: Option<Seq<char>>,
    cloud_env: bool,
) -> (JobView, ActionView) {
    let j = JobView {
        target,
        ss,
        title: trim(text_of(title)),
        artist: trim(text_of(artist)),
        raw_title: title,
        raw_artist: artist,
        cloud_env,
        queue: Seq::empty(),
        pos: 0,
        after: AfterQueue::GiveUp,
        phase: Phase::Finished,
    };
    match route_of(target) {
        StreamRoute::Direct => found(j, target),
        StreamRoute::SoundCloud => {
            let q = soundcloud_attempts(target, j.title, j.artist);
            (
                JobView { queue: q, pos: 0, after: AfterQueue::GiveUp, phase: Phase::Attempts, ..j },
                ActionView::Extract(q[0]),
            )
        },
        StreamRoute::YouTube => {
            let q = seq![youtube_attempt(target)];
            (
                JobView {
                    queue: q,
                    pos: 0,
                    after: AfterQueue::TitleOrSearches,
                    phase: Phase::Attempts,
                    ..j
                },
                ActionView::Extract(q[0]),
            )
        },
    }
}

// ---------------------------------------------------------------------------
// Executable steps
// ---------------------------------------------------------------------------

fn clone_args(v: &Vec<String>) -> (r: Vec<String>)
    ensures
        views(r@) == views(v@),
{
    let mut out: Vec<String> = Vec::new();
    let mut i: usize = 0;
    while i < v.len()
        invariant
            i <= v.len(),
            views(out@) == views(v@).take(i as int),
        decreases v.len() - i,
    {
        let ghost before = out@;
        out.push(v[i].clone());
        assert(views(out@) =~= views(before).push(v@[i as int]@));
        i = i + 1;
        assert(views(v@).take(i as int) =~= views(v@).take(i - 1).push(v@[i - 1]@));
    }
    assert(views(v@).take(v.len() as int) =~= views(v@));
    out
}

fn clone_attempt(a: &Attempt) -> (r: Attempt)
    ensures
        r@ == a@,
{
    Attempt { args: clone_args(&a.args), cookies: a.cookies, timeout_ms: a.timeout_ms }
}

fn search_attempts_of(queries: &Vec<String>) -> (r: Vec<Attempt>)
    ensures
        attempt_views(r@) == search_attempts(views(queries@)),
{
    let mut out: Vec<Attempt> = Vec::new();
    let mut i: usize = 0;
    while i < queries.len()
        invariant
            i <= queries.len(),
            attempt_views(out@) == search_attempts(views(queries@)).take(i as int),
        decreases queries.len() - i,
    {
        let a = Attempt {
            args: link_lookup_args(queries[i].as_str(), false),
            cookies: false,
            timeout_ms: if i == 0 {
                6000
            } else {
                5000
            },
        };
        let ghost before = out@;
        let ghost av = a@;
        out.push(a);
        assert(attempt_views(out@) =~= attempt_views(before).push(av));
        assert(search_attempts(views(queries@))[i as int] == av);
        i = i + 1;
        assert(search_attempts(views(queries@)).take(i as int) =~= search_attempts(
            views(queries@),
        ).take(i - 1).push(av));
    }
    assert(search_attempts(views(queries@)).take(queries.len() as int) =~= search_attempts(
        views(queries@),
    ));
    out
}

fn text_of_opt(o: Option<&str>) -> (r: &str)
    ensures
        r@ == text_of(str_opt(o)),
{
    match o {
        Some(s) => s,
        None => {
            proof {
                reveal_strlit("");
            }
            ""
        },
    }
}

impl StreamJob {
    /// The job for a stream of `target` (resolved and, where needed,
    /// SSRF-checked), with the request's seek position, title and artist,
    /// and whether this is the cloud instance; and its first action.
    pub fn begin(
        target: &str,
        ss: Option<u64>,
        title: Option<&str>,
        artist: Option<&str>,
        cloud_env: bool,
    ) -> (r: (StreamJob, StreamAction))
        ensures
            r.0.wf(),
            r.0@ == begin(target@, ss, str_opt(title), str_opt(artist), cloud_env).0,
            r.1@ == begin(target@, ss, str_opt(title), str_opt(artist), cloud_env).1,
    {
        let t = trimmed(text_of_opt(title));
        let a = trimmed(text_of_opt(artist));
        let raw_title: Option<String> = match title {
            Some(s) => Some(s.to_owned()),
            None => None,
        };
        let raw_artist: Option<String> = match artist {
            Some(s) => Some(s.to_owned()),
            None => None,
        };
        let route = stream_route(target);
        match route {
            StreamRoute::Direct => {
                let job = StreamJob {
                    target: target.to_owned(),
                    ss,
                    title: t,
                    artist: a,
                    raw_title,
                    raw_artist,
                    cloud_env,
                    queue: Vec::new(),
                    pos: 0,
                    after: AfterQueue::GiveUp,
                    phase: Phase::Finished,
                };
                proof {
                    assert(attempt_views(job.queue@) =~= Seq::<AttemptView>::empty());
                }
                let act = StreamAction::Transcode(ffmpeg_args(target, ss));
                proof {
                    let b = begin(target@, ss, str_opt(title), str_opt(artist), cloud_env);
                    assert(act@ == b.1);
                    assert(job@.queue == b.0.queue);
                    assert(job@.title == b.0.title);
                    assert(job@.raw_title == b.0.raw_title);
                    assert(job@ =~~= b.0);
                }
                (job, act)
            },
            StreamRoute::SoundCloud => {
                let (nt, na) = soundcloud_names_of(target, t.as_str(), a.as_str());
                let queries = soundcloud_fallback_queries(nt.as_str(), na.as_str());
                let mut queue: Vec<Attempt> = Vec::new();
                queue.push(
                    Attempt { args: link_lookup_args(target, false), cookies: false, timeout_ms: 6000 },
                );
                queue.push(
                    Attempt { args: link_lookup_args(target, false), cookies: true, timeout_ms: 4000 },
                );
                let ghost head = attempt_views(queue@);
                let searches = search_attempts_of(&queries);
                let mut k: usize = 0;
                while k < searches.len()
                    invariant
                        k <= searches.len(),
                        attempt_views(queue@) == head + attempt_views(searches@).take(k as int),
                        head.len() == 2,
                    decreases searches.len() - k,
                {
                    let ghost before = queue@;
                    queue.push(clone_attempt(&searches[k]));
                    k = k + 1;
                    proof {
                        assert(attempt_views(queue@) =~= attempt_views(before).push(searches@[k - 1]@));
                        assert(attempt_views(searches@).take(k as int) =~= attempt_views(searches@).take(
                            k - 1,
                        ).push(searches@[k - 1]@));
                    }
                }
                proof {
                    assert(attempt_views(searches@).take(searches.len() as int) =~= attempt_views(
                        searches@,
                    ));
                    assert(attempt_views(queue@) =~= soundcloud_attempts(target@, t@, a@));
                }
                let first = clone_attempt(&queue[0]);
                let job = StreamJob {
                    target: target.to_owned(),
                    ss,
                    title: t,
                    artist: a,
                    raw_title,
                    raw_artist,
                    cloud_env,
                    queue,
                    pos: 0,
                    after: AfterQueue::GiveUp,
                    phase: Phase::Attempts,
                };
                (job, StreamAction::Extract(first))
            },
            StreamRoute::YouTube => {
                let mut queue: Vec<Attempt> = Vec::new();
                queue.push(
                    Attempt { args: link_lookup_args(target, true), cookies: true, timeout_ms: 3000 },
                );
                let first = clone_attempt(&queue[0]);
                let job = StreamJob {
                    target: target.to_owned(),
                    ss,
                    title: t,
                    artist: a,
                    raw_title,
                    raw_artist,
                    cloud_env,
                    queue,
                    pos: 0,
                    after: AfterQueue::TitleOrSearches,
                    phase: Phase::Attempts,
                };
                (job, StreamAction::Extract(first))
            },
        }
    }
}


impl StreamJob {
    fn finish_with_link(&mut self, url: &str) -> (r: StreamAction)
        ensures
            final(self)@ == found(old(self)@, url@).0,
            r@ == found(old(self)@, url@).1,
            final(self).wf(),
    {
        self.phase = Phase::Finished;
        let act = StreamAction::Transcode(ffmpeg_args(url, self.ss));
        proof {
            assert(self@ =~~= found(old(self)@, url@).0);
        }
        act
    }

    fn go_cloud(&mut self) -> (r: StreamAction)
        ensures
            final(self)@ == cloud_step(old(self)@).0,
            r@ == cloud_step(old(self)@).1,
            final(self).wf(),
    {
        if !self.cloud_env {
            self.phase = Phase::Cloud;
            let link = cloud_stream_url(
                self.target.as_str(),
                self.ss,
                borrowed_opt(&self.raw_title),
                borrowed_opt(&self.raw_artist),
            );
            proof {
                assert(self@ =~~= cloud_step(old(self)@).0);
            }
            StreamAction::RelayCloud(link)
        } else {
            self.phase = Phase::Finished;
            proof {
                assert(self@ =~~= cloud_step(old(self)@).0);
            }
            StreamAction::NotFound
        }
    }

    fn go_mirrors(&mut self) -> (r: StreamAction)
        ensures
            final(self)@ == mirror_step(old(self)@).0,
            r@ == mirror_step(old(self)@).1,
            final(self).wf(),
    {
        match mirror_video_id_of(self.target.as_str()) {
            Some(v) => {
                self.phase = Phase::Mirrors;
                proof {
                    assert(self@ =~~= mirror_step(old(self)@).0);
                }
                StreamAction::AskMirrors(v)
            },
            None => self.go_cloud(),
        }
    }

    fn go_search(&mut self) -> (r: StreamAction)
        ensures
            final(self)@ == search_step(old(self)@).0,
            r@ == search_step(old(self)@).1,
            final(self).wf(),
    {
        let queries = youtube_fallback_searches(self.title.as_str(), self.artist.as_str());
        let q = search_attempts_of(&queries);
        self.queue = q;
        self.pos = 0;
        self.after = AfterQueue::MirrorsOrCloud;
        let ghost mid = self@;
        assert(mid =~~= JobView {
            queue: search_attempts(youtube_fallback_queries(old(self)@.title, old(self)@.artist)),
            pos: 0,
            after: AfterQueue::MirrorsOrCloud,
            ..old(self)@
        });
        if self.queue.len() > 0 {
            self.phase = Phase::Attempts;
            let first = clone_attempt(&self.queue[0]);
            proof {
                assert(self@ =~~= search_step(old(self)@).0);
            }
            StreamAction::Extract(first)
        } else {
            self.go_mirrors()
        }
    }

    fn go_after_queue(&mut self) -> (r: StreamAction)
        ensures
            final(self)@ == after_queue(old(self)@).0,
            r@ == after_queue(old(self)@).1,
            final(self).wf(),
    {
        match self.after {
            AfterQueue::GiveUp => {
                self.phase = Phase::Finished;
                proof {
                    assert(self@ =~~= after_queue(old(self)@).0);
                }
                StreamAction::NotFound
            },
            AfterQueue::TitleOrSearches => {
                if self.title.as_str().is_empty() {
                    self.phase = Phase::TitleLookup;
                    let link = oembed_url(self.target.as_str());
                    proof {
                        assert(self@ =~~= after_queue(old(self)@).0);
                    }
                    StreamAction::LookUpTitle(link)
                } else {
                    self.go_search()
                }
            },
            AfterQueue::MirrorsOrCloud => self.go_mirrors(),
        }
    }

    fn go_next_attempt(&mut self) -> (r: StreamAction)
        requires
            old(self).wf(),
            old(self)@.phase == Phase::Attempts,
        ensures
            final(self)@ == next_attempt(old(self)@).0,
            r@ == next_attempt(old(self)@).1,
            final(self).wf(),
    {
        assert(attempt_views(self.queue@).len() == self.queue@.len());
        assert(self.pos < self.queue.len());
        if self.pos + 1 < self.queue.len() {
            self.pos = self.pos + 1;
            let a = clone_attempt(&self.queue[self.pos]);
            proof {
                assert(self@ =~~= next_attempt(old(self)@).0);
            }
            StreamAction::Extract(a)
        } else {
            self.go_after_queue()
        }
    }

    /// Takes in what came of the last action and gives the next one (see
    /// `step`).
    pub fn advance(&mut self, event: StreamEvent) -> (r: StreamAction)
        requires
            old(self).wf(),
        ensures
            final(self).wf(),
            final(self)@ == step(old(self)@, event@).0,
            r@ == step(old(self)@, event@).1,
    {
        match self.phase {
            Phase::Attempts => match event {
                StreamEvent::Link(Some(u)) => self.finish_with_link(u.as_str()),
                _ => self.go_next_attempt(),
            },
            Phase::TitleLookup => match event {
                StreamEvent::Titles(t, a) => {
                    if let Some(x) = t {
                        self.title = trimmed(x.as_str());
                    }
                    if let Some(x) = a {
                        self.artist = trimmed(x.as_str());
                    }
                    self.go_search()
                },
                _ => self.go_search(),
            },
            Phase::Mirrors => match event {
                StreamEvent::Link(Some(u)) => self.finish_with_link(u.as_str()),
                _ => self.go_cloud(),
            },
            Phase::Cloud => match event {
                StreamEvent::Relayed(true) => {
                    self.phase = Phase::Finished;
                    proof {
                        assert(self@ =~~= step(old(self)@, event@).0);
                    }
                    StreamAction::Done
                },
                _ => {
                    self.phase = Phase::Finished;
                    proof {
                        assert(self@ =~~= step(old(self)@, event@).0);
                    }
                    StreamAction::NotFound
                },
            },
            Phase::Finished => StreamAction::Done,
        }
    }

    /// Whether the job has decided its answer.
    pub fn finished(&self) -> (r: bool)
        ensures
            r == (self@.phase == Phase::Finished),
    {
        self.phase == Phase::Finished
    }
}

// ---------------------------------------------------------------------------
// Laws of the course
// ---------------------------------------------------------------------------

/// A bound on the work left: it falls with every step until the job is
/// finished.
pub open spec fn work_left(j: JobView) -> int {
    match j.phase {
        Phase::Attempts => (j.queue.len() - j.pos) + match j.after {
            AfterQueue::GiveUp => 0int,
            AfterQueue::MirrorsOrCloud => 20int,
            AfterQueue::TitleOrSearches => 40int,
        },
        Phase::TitleLookup => 30,
        Phase::Mirrors => 10,
        Phase::Cloud => 5,
        Phase::Finished => 0,
    }
}

proof fn lemma_search_step_small(j: JobView)
    ensures
        search_step(j).0.phase == Phase::Finished || work_left(search_step(j).0) <= 22,
{
    let q = youtube_fallback_queries(j.title, j.artist);
    assert(q.len() <= 2);
    assert(search_attempts(q).len() == q.len());
}

/// Every stream request comes to an answer: each step either finishes
/// the job or lowers the work left, so the exchange with the caller
/// cannot go on for ever.
pub proof fn law_every_course_ends(j: JobView, e: EventView)
    requires
        j.phase == Phase::Attempts ==> j.pos < j.queue.len(),
    ensures
        step(j, e).0.phase == Phase::Finished || work_left(step(j, e).0) < work_left(j),
{
    lemma_search_step_small(j);
    match e {
        EventView::Titles(t, a) => {
            lemma_search_step_small(
                JobView {
                    title: match t {
                        Some(x) => trim(x),
                        None => j.title,
                    },
                    artist: match a {
                        Some(x) => trim(x),
                        None => j.artist,
                    },
                    ..j
                },
            );
        },
        _ => {},
    }
}

/// An audio link found by an extractor run or by the mirrors is what is
/// transcoded, and the job is then finished.
pub proof fn law_found_link_is_transcoded(j: JobView, url: Seq<char>)
    requires
        j.phase == Phase::Attempts || j.phase == Phase::Mirrors,
    ensures
        step(j, EventView::Link(Some(url))).0.phase == Phase::Finished,
        step(j, EventView::Link(Some(url))).1 == ActionView::Transcode(transcoder_args(url, j.ss)),
{
}

/// The cloud instance never relays a stream to itself.
pub proof fn law_cloud_never_relays_to_itself(j: JobView, e: EventView)
    requires
        j.cloud_env,
    ensures
        !(step(j, e).1 is RelayCloud),
{
}

/// A direct audio link is transcoded at once.
pub proof fn law_direct_link_transcoded_at_once(
    target: Seq<char>,
    ss: Option<u64>,
    title: Option<Seq<char>>,
    artist: Option<Seq<char>>,
    cloud_env: bool,
)
    requires
        route_of(target) == StreamRoute::Direct,
    ensures
        begin(target, ss, title, artist, cloud_env).0.phase == Phase::Finished,
        begin(target, ss, title, artist, cloud_env).1 == ActionView::Transcode(
            transcoder_args(target, ss),
        ),
{
}

} // verus!
