use recro::extraction::{ExtractAction, ExtractEvent, ExtractJob, MainPick, TrackSource};
use recro::extractor::{oembed_url, playlist_listing_args, video_listing_args};
use recro::links::cloud_extract_url;

fn ids(v: &[&str]) -> Vec<String> {
    v.iter().map(|s| s.to_string()).collect()
}

#[test]
fn chapters_are_the_answer() {
    let (mut job, a) = ExtractJob::begin("https://www.youtube.com/watch?v=abc", false);
    match a {
        ExtractAction::DescribeVideo(args) => assert_eq!(args, video_listing_args("https://www.youtube.com/watch?v=abc")),
        _ => panic!("expected the video description"),
    }
    assert!(matches!(job.advance(ExtractEvent::Described { main: true, chapters: 3 }), ExtractAction::AnswerChapters));
    assert!(matches!(job.advance(ExtractEvent::Listed(Vec::new())), ExtractAction::Done));
}

#[test]
fn listed_entries_with_the_described_main_video() {
    let url = "https://www.youtube.com/watch?v=abc&list=PL1";
    let (mut job, _) = ExtractJob::begin(url, false);
    match job.advance(ExtractEvent::Described { main: true, chapters: 0 }) {
        ExtractAction::ListEntries(args) => assert_eq!(args, playlist_listing_args(url)),
        _ => panic!("expected the listing"),
    }
    assert!(matches!(
        job.advance(ExtractEvent::Listed(ids(&["x", "abc"]))),
        ExtractAction::Answer(TrackSource::Listed, MainPick::Described)
    ));
}

#[test]
fn main_video_is_picked_from_the_entries() {
    let url = "https://www.youtube.com/watch?v=abc&list=PL1";
    let (mut job, _) = ExtractJob::begin(url, false);
    job.advance(ExtractEvent::Described { main: false, chapters: 0 });
    assert!(matches!(
        job.advance(ExtractEvent::Listed(ids(&["x", "abc"]))),
        ExtractAction::Answer(TrackSource::Listed, MainPick::Listed(1))
    ));
    let (mut job, _) = ExtractJob::begin("https://soundcloud.com/a/sets/b", false);
    assert!(matches!(
        job.advance(ExtractEvent::Listed(ids(&["t1", "t2"]))),
        ExtractAction::Answer(TrackSource::Listed, MainPick::Listed(0))
    ));
    let (mut job, _) = ExtractJob::begin("https://www.youtube.com/playlist?list=PL1", false);
    assert!(matches!(
        job.advance(ExtractEvent::Listed(ids(&["t1"]))),
        ExtractAction::Answer(TrackSource::Listed, MainPick::NoMain)
    ));
}

#[test]
fn described_video_stands_alone_without_entries() {
    let (mut job, _) = ExtractJob::begin("https://youtu.be/abc", false);
    job.advance(ExtractEvent::Described { main: true, chapters: 0 });
    assert!(matches!(
        job.advance(ExtractEvent::Listed(Vec::new())),
        ExtractAction::Answer(TrackSource::DescribedVideo, MainPick::Described)
    ));
}

#[test]
fn cloud_then_oembed_fallbacks() {
    let url = "https://youtu.be/abc";
    let (mut job, _) = ExtractJob::begin(url, false);
    job.advance(ExtractEvent::Described { main: false, chapters: 0 });
    match job.advance(ExtractEvent::Listed(Vec::new())) {
        ExtractAction::AskCloud(link) => assert_eq!(link, cloud_extract_url(url)),
        _ => panic!("expected the cloud"),
    }
    match job.advance(ExtractEvent::CloudAnswered(false)) {
        ExtractAction::LookUpVideo(link) => assert_eq!(link, oembed_url("https://www.youtube.com/watch?v=abc")),
        _ => panic!("expected the oEmbed lookup"),
    }
    assert!(matches!(
        job.advance(ExtractEvent::FallbackMade(true)),
        ExtractAction::Answer(TrackSource::Fallback, MainPick::Fallback)
    ));
}

#[test]
fn cloud_instance_goes_straight_to_oembed() {
    let (mut job, _) = ExtractJob::begin("https://youtu.be/abc", true);
    job.advance(ExtractEvent::Described { main: false, chapters: 0 });
    assert!(matches!(job.advance(ExtractEvent::Listed(Vec::new())), ExtractAction::LookUpVideo(_)));
    assert!(matches!(
        job.advance(ExtractEvent::FallbackMade(false)),
        ExtractAction::Answer(TrackSource::Nothing, MainPick::NoMain)
    ));
    let (mut job, a) = ExtractJob::begin("https://soundcloud.com/a", true);
    assert!(matches!(a, ExtractAction::ListEntries(_)));
    assert!(matches!(
        job.advance(ExtractEvent::Listed(Vec::new())),
        ExtractAction::Answer(TrackSource::Nothing, MainPick::NoMain)
    ));
}

#[test]
fn cloud_answer_ends_the_extraction() {
    let (mut job, _) = ExtractJob::begin("https://soundcloud.com/a", false);
    assert!(matches!(job.advance(ExtractEvent::Listed(Vec::new())), ExtractAction::AskCloud(_)));
    assert!(matches!(job.advance(ExtractEvent::CloudAnswered(true)), ExtractAction::Done));
}
