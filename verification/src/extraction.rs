//! The course of a link extraction, as a state machine: the caller runs
//! the extractor and the lookups each action asks for and reports what
//! came of them; the job decides what comes next and what is answered.
//!
//! A video link is first described on its own; when it has chapters,
//! they are the answer. Otherwise the link's entries are listed. With no
//! entries, the described video stands alone; with neither, the cloud
//! instance is asked, and then YouTube's oEmbed record makes a fallback
//! track. The main video, when none was described, is picked from the
//! listed entries.

use vstd::prelude::*;

use crate::extractor::{
    oembed_link, oembed_url, playlist_listing, playlist_listing_args, video_listing,
    video_listing_args,
};
use crate::links::{
    append_watch_url, cloud_extract_url, extract_video_id, url_encoded, video_id_of, watch_url,
    CLOUD_FALLBACK_URL,
};
use crate::search::{main_video_pick, pick_main_video, views};
use crate::text::string_of;
use crate::tracks::{borrowed_opt, opt_view};

verus! {

broadcast use vstd::string::group_string_axioms;

/// Where the answered tracks come from.
#[derive(PartialEq, Eq, Structural, Clone, Copy, Debug)]
pub enum TrackSource {
    /// The listed entries.
    Listed,
    /// The described video alone.
    DescribedVideo,
    /// The track made from the oEmbed record.
    Fallback,
    /// None.
    Nothing,
}

/// Which track is answered as the main video.
#[derive(PartialEq, Eq, Structural, Clone, Copy, Debug)]
pub enum MainPick {
    NoMain,
    /// The described video.
    Described,
    /// The track made from the oEmbed record.
    Fallback,
    /// The listed entry at this position.
    Listed(usize),
}

/// What the caller is asked to do next.
pub enum ExtractAction {
    /// Run the extractor with these arguments (ten seconds) and report
    /// whether a main track was read and how many chapters it has.
    DescribeVideo(Vec<String>),
    /// Run the extractor with these arguments (twenty-five seconds) and
    /// report the ids of the entries read, in order.
    ListEntries(Vec<String>),
    /// Ask the cloud instance at this link and report whether it
    /// answered (its answer is then given as it is).
    AskCloud(String),
    /// Fetch this oEmbed record and report whether a track was made of it.
    LookUpVideo(String),
    /// Answer the chapter tracks, with the described video as main.
    AnswerChapters,
    /// Answer these tracks with this main video.
    Answer(TrackSource, MainPick),
    /// Nothing more: the answer was given.
    Done,
}

#[verifier::ext_equal]
pub enum ExtractActionView {
    DescribeVideo(Seq<Seq<char>>),
    ListEntries(Seq<Seq<char>>),
    AskCloud(Seq<char>),
    LookUpVideo(Seq<char>),
    AnswerChapters,
    Answer(TrackSource, MainPick),
    Done,
}

impl View for ExtractAction {
    type V = ExtractActionView;

    open spec fn view(&self) -> ExtractActionView {
        match self {
            ExtractAction::DescribeVideo(a) => ExtractActionView::DescribeVideo(views(a@)),
            ExtractAction::ListEntries(a) => ExtractActionView::ListEntries(views(a@)),
            ExtractAction::AskCloud(u) => ExtractActionView::AskCloud(u@),
            ExtractAction::LookUpVideo(u) => ExtractActionView::LookUpVideo(u@),
            ExtractAction::AnswerChapters => ExtractActionView::AnswerChapters,
            ExtractAction::Answer(s, m) => ExtractActionView::Answer(*s, *m),
            ExtractAction::Done => ExtractActionView::Done,
        }
    }
}

/// What came of the last action.
pub enum ExtractEvent {
    /// Whether the video's own description gave a track, and how many
    /// chapter tracks.
    Described { main: bool, chapters: usize },
    /// The ids of the listed entries, in order.
    Listed(Vec<String>),
    /// Whether the cloud instance answered.
    CloudAnswered(bool),
    /// Whether a track was made from the oEmbed record.
    FallbackMade(bool),
}

pub enum ExtractEventView {
    Described { main: bool, chapters: usize },
    Listed(Seq<Seq<char>>),
    CloudAnswered(bool),
    FallbackMade(bool),
}

impl View for ExtractEvent {
    type V = ExtractEventView;

    open spec fn view(&self) -> ExtractEventView {
        match self {
            ExtractEvent::Described { main, chapters } => ExtractEventView::Described {
                main: *main,
                chapters: *chapters,
            },
            ExtractEvent::Listed(ids) => ExtractEventView::Listed(views(ids@)),
            ExtractEvent::CloudAnswered(b) => ExtractEventView::CloudAnswered(*b),
            ExtractEvent::FallbackMade(b) => ExtractEventView::FallbackMade(*b),
        }
    }
}

/// What the job is waiting for.
#[derive(PartialEq, Eq, Structural, Clone, Copy, Debug)]
pub enum ExtractPhase {
    Describing,
    Listing,
    Cloud,
    Oembed,
    Finished,
}

pub struct ExtractJob {
    url: String,
    video_id: Option<String>,
    cloud_env: bool,
    /// Whether the video's description gave a main track.
    described: bool,
    phase: ExtractPhase,
}

#[verifier::ext_equal]
pub struct ExtractJobView {
    pub url: Seq<char>,
    pub video_id: Option<Seq<char>>,
    pub cloud_env: bool,
    pub described: bool,
    pub phase: ExtractPhase,
}

impl View for ExtractJob {
    type V = ExtractJobView;

    closed spec fn view(&self) -> ExtractJobView {
        ExtractJobView {
            url: self.url@,
            video_id: opt_view(self.video_id),
            cloud_env: self.cloud_env,
            described: self.described,
            phase: self.phase,
        }
    }
}

// ---------------------------------------------------------------------------
// The course, over views
// ---------------------------------------------------------------------------

pub open spec fn cloud_extract_link(url: Seq<char>) -> Seq<char> {
    CLOUD_FALLBACK_URL@ + "/api/extract?url="@ + url_encoded(url)
}

pub open spec fn extract_finish(j: ExtractJobView, a: ExtractActionView) -> (
    ExtractJobView,
    ExtractActionView,
) {
    (ExtractJobView { phase: ExtractPhase::Finished, ..j }, a)
}

/// The oEmbed lookup when the link names a video, else an empty answer.
pub open spec fn oembed_step(j: ExtractJobView) -> (ExtractJobView, ExtractActionView) {
    match j.video_id {
        Some(v) => (
            ExtractJobView { phase: ExtractPhase::Oembed, ..j },
            ExtractActionView::LookUpVideo(oembed_link(watch_url(v))),
        ),
        None => extract_finish(j, ExtractActionView::Answer(TrackSource::Nothing, MainPick::NoMain)),
    }
}

/// Nothing was found locally: the cloud instance unless this is it, then
/// the oEmbed lookup.
pub open spec fn cloud_step(j: ExtractJobView) -> (ExtractJobView, ExtractActionView) {
    if !j.cloud_env {
        (
            ExtractJobView { phase: ExtractPhase::Cloud, ..j },
            ExtractActionView::AskCloud(cloud_extract_link(j.url)),
        )
    } else {
        oembed_step(j)
    }
}

/// The answer once the entries are listed.
pub open spec fn after_listing(j: ExtractJobView, ids: Seq<Seq<char>>) -> (
    ExtractJobView,
    ExtractActionView,
) {
    if ids.len() > 0 {
        let main = if j.described {
            MainPick::Described
        } else {
            match main_video_pick(ids, j.video_id, j.url) {
                Some(i) => MainPick::Listed(i as usize),
                None => MainPick::NoMain,
            }
        };
        extract_finish(j, ExtractActionView::Answer(TrackSource::Listed, main))
    } else if j.described {
        extract_finish(j, ExtractActionView::Answer(TrackSource::DescribedVideo, MainPick::Described))
    } else {
        cloud_step(j)
    }
}

pub open spec fn start_listing(j: ExtractJobView) -> (ExtractJobView, ExtractActionView) {
    (
        ExtractJobView { phase: ExtractPhase::Listing, ..j },
        ExtractActionView::ListEntries(playlist_listing(j.url)),
    )
}

/// The job after one event, and the next action.
pub open spec fn extract_step(j: ExtractJobView, e: ExtractEventView) -> (
    ExtractJobView,
    ExtractActionView,
) {
    match j.phase {
        ExtractPhase::Describing => match e {
            ExtractEventView::Described { main, chapters } => if chapters > 0 {
                extract_finish(
                    ExtractJobView { described: main, ..j },
                    ExtractActionView::AnswerChapters,
                )
            } else {
                start_listing(ExtractJobView { described: main, ..j })
            },
            _ => start_listing(ExtractJobView { described: false, ..j }),
        },
        ExtractPhase::Listing => match e {
            ExtractEventView::Listed(ids) => after_listing(j, ids),
            _ => after_listing(j, Seq::empty()),
        },
        ExtractPhase::Cloud => match e {
            ExtractEventView::CloudAnswered(true) => extract_finish(j, ExtractActionView::Done),
            _ => oembed_step(j),
        },
        ExtractPhase::Oembed => match e {
            ExtractEventView::FallbackMade(true) => extract_finish(
                j,
                ExtractActionView::Answer(TrackSource::Fallback, MainPick::Fallback),
            ),
            _ => extract_finish(j, ExtractActionView::Answer(TrackSource::Nothing, MainPick::NoMain)),
        },
        ExtractPhase::Finished => (j, ExtractActionView::Done),
    }
}

/// The job for the (checked) link `url`, and its first action.
pub open spec fn extract_begin(url: Seq<char>, cloud_env: bool) -> (ExtractJobView, ExtractActionView) {
    let j = ExtractJobView {
        url,
        video_id: video_id_of(url),
        cloud_env,
        described: false,
        phase: ExtractPhase::Describing,
    };
    match video_id_of(url) {
        Some(v) => (j, ExtractActionView::DescribeVideo(video_listing(watch_url(v)))),
        None => start_listing(j),
    }
}

// ---------------------------------------------------------------------------
// Executable steps
// ---------------------------------------------------------------------------

fn watch_page(id: &str) -> (r: String)
    ensures
        r@ == watch_url(id@),
{
    let mut v: Vec<char> = Vec::new();
    append_watch_url(&mut v, id);
    assert(v@ =~= watch_url(id@));
    string_of(&v)
}

impl ExtractJob {
    /// The job for the link `url` (already checked), and whether this is
    /// the cloud instance; and its first action.
    pub fn begin(url: &str, cloud_env: bool) -> (r: (ExtractJob, ExtractAction))
        ensures
            r.0@ == extract_begin(url@, cloud_env).0,
            r.1@ == extract_begin(url@, cloud_env).1,
    {
        let vid = extract_video_id(url);
        match vid {
            Some(v) => {
                let args = video_listing_args(watch_page(v.as_str()).as_str());
                let job = ExtractJob {
                    url: url.to_owned(),
                    video_id: Some(v),
                    cloud_env,
                    described: false,
                    phase: ExtractPhase::Describing,
                };
                proof {
                    assert(job@ =~~= extract_begin(url@, cloud_env).0);
                }
                (job, ExtractAction::DescribeVideo(args))
            },
            None => {
                let job = ExtractJob {
                    url: url.to_owned(),
                    video_id: None,
                    cloud_env,
                    described: false,
                    phase: ExtractPhase::Listing,
                };
                let args = playlist_listing_args(url);
                proof {
                    assert(job@ =~~= extract_begin(url@, cloud_env).0);
                }
                (job, ExtractAction::ListEntries(args))
            },
        }
    }

    fn finish_with(&mut self, a: ExtractAction) -> (r: ExtractAction)
        ensures
            final(self)@ == extract_finish(old(self)@, a@).0,
            r@ == a@,
    {
        self.phase = ExtractPhase::Finished;
        proof {
            assert(self@ =~~= extract_finish(old(self)@, a@).0);
        }
        a
    }

    fn go_oembed(&mut self) -> (r: ExtractAction)
        ensures
            final(self)@ == oembed_step(old(self)@).0,
            r@ == oembed_step(old(self)@).1,
    {
        match &self.video_id {
            Some(v) => {
                let link = oembed_url(watch_page(v.as_str()).as_str());
                self.phase = ExtractPhase::Oembed;
                proof {
                    assert(self@ =~~= oembed_step(old(self)@).0);
                }
                ExtractAction::LookUpVideo(link)
            },
            None => self.finish_with(ExtractAction::Answer(TrackSource::Nothing, MainPick::NoMain)),
        }
    }

    fn go_cloud(&mut self) -> (r: ExtractAction)
        ensures
            final(self)@ == cloud_step(old(self)@).0,
            r@ == cloud_step(old(self)@).1,
    {
        if !self.cloud_env {
            let link = cloud_extract_url(self.url.as_str());
            self.phase = ExtractPhase::Cloud;
            proof {
                assert(self@ =~~= cloud_step(old(self)@).0);
            }
            ExtractAction::AskCloud(link)
        } else {
            self.go_oembed()
        }
    }

    fn go_answer(&mut self, ids: &Vec<String>) -> (r: ExtractAction)
        ensures
            final(self)@ == after_listing(old(self)@, views(ids@)).0,
            r@ == after_listing(old(self)@, views(ids@)).1,
    {
        if ids.len() > 0 {
            let main = if self.described {
                MainPick::Described
            } else {
                match pick_main_video(ids, borrowed_opt(&self.video_id), self.url.as_str()) {
                    Some(i) => MainPick::Listed(i),
                    None => MainPick::NoMain,
                }
            };
            self.finish_with(ExtractAction::Answer(TrackSource::Listed, main))
        } else if self.described {
            self.finish_with(ExtractAction::Answer(TrackSource::DescribedVideo, MainPick::Described))
        } else {
            self.go_cloud()
        }
    }

    fn go_listing(&mut self) -> (r: ExtractAction)
        ensures
            final(self)@ == start_listing(old(self)@).0,
            r@ == start_listing(old(self)@).1,
    {
        self.phase = ExtractPhase::Listing;
        proof {
            assert(self@ =~~= start_listing(old(self)@).0);
        }
        ExtractAction::ListEntries(playlist_listing_args(self.url.as_str()))
    }

    /// Takes in what came of the last action and gives the next one (see
    /// `extract_step`).
    pub fn advance(&mut self, event: ExtractEvent) -> (r: ExtractAction)
        ensures
            final(self)@ == extract_step(old(self)@, event@).0,
            r@ == extract_step(old(self)@, event@).1,
    {
        match self.phase {
            ExtractPhase::Describing => match event {
                ExtractEvent::Described { main, chapters } => {
                    self.described = main;
                    if chapters > 0 {
                        self.finish_with(ExtractAction::AnswerChapters)
                    } else {
                        self.go_listing()
                    }
                },
                _ => {
                    self.described = false;
                    self.go_listing()
                },
            },
            ExtractPhase::Listing => match event {
                ExtractEvent::Listed(ids) => self.go_answer(&ids),
                _ => {
                    let none: Vec<String> = Vec::new();
                    assert(views(none@) =~= Seq::<Seq<char>>::empty());
                    self.go_answer(&none)
                },
            },
            ExtractPhase::Cloud => match event {
                ExtractEvent::CloudAnswered(true) => self.finish_with(ExtractAction::Done),
                _ => self.go_oembed(),
            },
            ExtractPhase::Oembed => match event {
                ExtractEvent::FallbackMade(true) => self.finish_with(
                    ExtractAction::Answer(TrackSource::Fallback, MainPick::Fallback),
                ),
                _ => self.finish_with(ExtractAction::Answer(TrackSource::Nothing, MainPick::NoMain)),
            },
            ExtractPhase::Finished => ExtractAction::Done,
        }
    }
}

// ---------------------------------------------------------------------------
// Laws of the course
// ---------------------------------------------------------------------------

/// Work left: every step finishes the job or lowers it.
pub open spec fn extract_work_left(j: ExtractJobView) -> int {
    match j.phase {
        ExtractPhase::Describing => 4,
        ExtractPhase::Listing => 3,
        ExtractPhase::Cloud => 2,
        ExtractPhase::Oembed => 1,
        ExtractPhase::Finished => 0,
    }
}

/// Every extraction comes to an answer.
pub proof fn law_every_extraction_ends(j: ExtractJobView, e: ExtractEventView)
    ensures
        extract_step(j, e).0.phase == ExtractPhase::Finished || extract_work_left(
            extract_step(j, e).0,
        ) < extract_work_left(j),
{
}

/// A picked main entry is one of the listed entries.
pub proof fn law_main_pick_is_listed(j: ExtractJobView, ids: Seq<Seq<char>>)
    requires
        j.phase == ExtractPhase::Listing,
    ensures
        after_listing(j, ids).1 matches ExtractActionView::Answer(_, MainPick::Listed(i)) ==> i
            < ids.len(),
{
    if ids.len() > 0 && !j.described {
        lemma_main_pick_in_range(ids, j.video_id, j.url);
    }
}

proof fn lemma_index_from_in_range(ids: Seq<Seq<char>>, x: Seq<char>, from: int)
    requires
        0 <= from,
    ensures
        crate::search::index_from(ids, x, from) matches Some(i) ==> from <= i < ids.len(),
    decreases ids.len() - from,
{
    if from < ids.len() && ids[from] != x {
        lemma_index_from_in_range(ids, x, from + 1);
    }
}

proof fn lemma_main_pick_in_range(ids: Seq<Seq<char>>, vid: Option<Seq<char>>, url: Seq<char>)
    ensures
        main_video_pick(ids, vid, url) matches Some(i) ==> 0 <= i < ids.len(),
{
    if vid is Some {
        lemma_index_from_in_range(ids, vid->0, 0);
    }
}

/// The cloud instance never asks itself.
pub proof fn law_cloud_never_asks_itself(j: ExtractJobView, e: ExtractEventView)
    requires
        j.cloud_env,
    ensures
        !(extract_step(j, e).1 is AskCloud),
{
}

} // verus!
