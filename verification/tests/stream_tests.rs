use recro::extractor::{
    first_audio_link, link_lookup_args, mirror_instances, next_playlist_title, oembed_url,
    playlist_listing_args, search_listing_args, video_listing_args, MediaFormat,
};
use recro::playback::{Attempt, StreamAction, StreamEvent, StreamJob};
use recro::status::HttpStatus;
use recro::stream::{
    cloud_stream_url, extract_stream_url_from_output, ffmpeg_args, mirror_video_id_of,
    mirror_video_url, referer, resolve_stream_target, searchable_title, soundcloud_fallback_queries,
    soundcloud_names_of, stream_requires_ssrf_check, stream_route, youtube_fallback_searches,
    yt_dlp_common_args, StreamRoute,
};

fn extract_args(a: &StreamAction) -> (Vec<String>, bool, u64) {
    match a {
        StreamAction::Extract(Attempt { args, cookies, timeout_ms }) => {
            (args.clone(), *cookies, *timeout_ms)
        }
        _ => panic!("expected an extractor run"),
    }
}

#[test]
fn stream_target_from_the_request() {
    assert_eq!(resolve_stream_target(Some(" https://x/a.mp3 "), Some("id"), None, None), Ok("https://x/a.mp3".to_string()));
    assert_eq!(resolve_stream_target(Some("  "), Some(" abc "), None, None), Ok("https://www.youtube.com/watch?v=abc".to_string()));
    assert_eq!(resolve_stream_target(None, Some("https://youtu.be/x"), None, None), Ok("https://youtu.be/x".to_string()));
    assert_eq!(resolve_stream_target(None, None, Some(" Song (Official Video) "), Some(" Band ")), Ok("scsearch2:Song Band".to_string()));
    assert_eq!(resolve_stream_target(None, None, Some("Song"), None), Ok("scsearch2:Song".to_string()));
    assert_eq!(resolve_stream_target(None, None, None, None), Err(HttpStatus::BadRequest));
    assert_eq!(resolve_stream_target(Some("-x"), None, None, None), Err(HttpStatus::BadRequest));
}

#[test]
fn stream_routes() {
    assert_eq!(stream_route("https://radio.example/live.mp3"), StreamRoute::Direct);
    assert_eq!(stream_route("http://radio.example:8000/stream/x"), StreamRoute::Direct);
    assert_eq!(stream_route("https://soundcloud.com/a/b"), StreamRoute::SoundCloud);
    assert_eq!(stream_route("scsearch2:song"), StreamRoute::SoundCloud);
    assert_eq!(stream_route("https://www.youtube.com/watch?v=x"), StreamRoute::YouTube);
    assert!(stream_requires_ssrf_check("https://radio.example/live.mp3"));
    assert!(!stream_requires_ssrf_check("https://cf-media.sndcdn.com/x"));
    assert!(!stream_requires_ssrf_check("scsearch2:x"));
}

#[test]
fn extractor_output_gives_the_audio_link() {
    let out = b"junk\n  https://example.com/page  \r\nhttps://rr1.googlevideo.com/videoplayback?x\n";
    assert_eq!(extract_stream_url_from_output(out), Some("https://rr1.googlevideo.com/videoplayback?x".to_string()));
    let only_web = b"https://example.com/page\n";
    assert_eq!(extract_stream_url_from_output(only_web), Some("https://example.com/page".to_string()));
    assert_eq!(extract_stream_url_from_output(b"no links here"), None);
    // invalid UTF-8 is replaced, the rest still read
    let mixed: Vec<u8> = [&[0xffu8, 0xfe, b'\n'][..], b"https://a.sndcdn.com/x.mp3"].concat();
    assert_eq!(extract_stream_url_from_output(&mixed), Some("https://a.sndcdn.com/x.mp3".to_string()));
}

#[test]
fn fallback_searches() {
    assert_eq!(soundcloud_fallback_queries("Song (Live)", "Band"), vec!["scsearch5:Song Band".to_string(), "scsearch5:Song".to_string()]);
    assert_eq!(soundcloud_fallback_queries("Song", ""), vec!["scsearch5:Song".to_string()]);
    assert!(soundcloud_fallback_queries("", "Band").is_empty());
    assert_eq!(youtube_fallback_searches("Band - Song", "band"), vec!["scsearch5:Band - Song".to_string(), "scsearch5:Band - Song".to_string()]);
    assert_eq!(youtube_fallback_searches("Song", "Band"), vec!["scsearch5:Song Band".to_string(), "scsearch5:Song".to_string()]);
    assert!(youtube_fallback_searches("", "Band").is_empty());
    assert_eq!(soundcloud_names_of("https://soundcloud.com/some-band/great-song?x", "", ""), ("great song?x".to_string(), "some band".to_string()));
    assert_eq!(soundcloud_names_of("https://soundcloud.com/solo", "", "A"), ("solo".to_string(), "A".to_string()));
    assert_eq!(soundcloud_names_of("https://soundcloud.com/a/b", "T", "A"), ("T".to_string(), "A".to_string()));
    assert_eq!(searchable_title("İstanbul (Live)"), "İstanbul");
    assert_eq!(searchable_title("İstanbul Official Video"), "İstanbul Official Video");
}

#[test]
fn mirrors_and_cloud_links() {
    assert_eq!(mirror_video_id_of("https://www.youtube.com/watch?v=abc&t=2"), Some("abc".to_string()));
    assert_eq!(mirror_video_id_of("https://youtu.be/xyz"), Some("xyz".to_string()));
    assert_eq!(mirror_video_id_of("https://soundcloud.com/a"), None);
    assert_eq!(mirror_video_url("https://inv.nadeko.net", "abc"), "https://inv.nadeko.net/api/v1/videos/abc");
    assert_eq!(mirror_instances().len(), 5);
    assert_eq!(
        cloud_stream_url("https://youtu.be/x", Some(30), Some("A B"), None),
        "https://signal-audio-backend-production.up.railway.app/api/stream?url=https%3A%2F%2Fyoutu.be%2Fx&ss=30&title=A%20B"
    );
    let formats = vec![
        MediaFormat { mime: Some("video/mp4".into()), url: Some("v".into()) },
        MediaFormat { mime: Some("audio/webm".into()), url: Some(String::new()) },
        MediaFormat { mime: Some("audio/mp4".into()), url: Some("a".into()) },
    ];
    assert_eq!(first_audio_link(&formats), Some("a".to_string()));
    assert_eq!(first_audio_link(&Vec::new()), None);
}

#[test]
fn transcoder_and_extractor_arguments() {
    assert_eq!(referer("https://cf-media.sndcdn.com/a"), "https://soundcloud.com/");
    assert_eq!(referer("https://rr.googlevideo.com/a"), "https://www.youtube.com/");
    let a = ffmpeg_args("https://x/a.mp3", Some(15));
    assert_eq!(a[5], "https://www.youtube.com/");
    assert_eq!(&a[18..20], &["-ss".to_string(), "15".to_string()]);
    assert_eq!(&a[20..22], &["-i".to_string(), "https://x/a.mp3".to_string()]);
    assert_eq!(a.last().unwrap(), "pipe:1");
    assert_eq!(ffmpeg_args("u", Some(0)).len(), 28);
    assert_eq!(ffmpeg_args("u", None).len(), 28);
    assert_eq!(yt_dlp_common_args(Some(" socks5://p "), Some("c.txt")), vec!["--no-warnings", "--proxy", "socks5://p", "--cookies", "c.txt"]);
    assert_eq!(yt_dlp_common_args(Some("  "), None), vec!["--no-warnings"]);
    assert_eq!(link_lookup_args("t", false), vec!["--no-playlist", "--ignore-errors", "-g", "-f", "bestaudio/b", "--", "t"]);
    assert_eq!(link_lookup_args("t", true)[4], "bestaudio/ba/b");
    assert_eq!(search_listing_args("ytsearch10:x"), vec!["ytsearch10:x", "--dump-json", "--flat-playlist", "--playlist-end", "50"]);
    assert_eq!(video_listing_args("u"), vec!["u", "--dump-json", "--no-playlist"]);
    assert_eq!(playlist_listing_args("u"), vec!["--dump-json", "--flat-playlist", "--playlist-end", "100", "--", "u"]);
    assert_eq!(oembed_url("https://youtu.be/x"), "https://www.youtube.com/oembed?url=https%3A%2F%2Fyoutu.be%2Fx&format=json");
    assert_eq!(next_playlist_title(None, None, Some("P")), Some("P".to_string()));
    assert_eq!(next_playlist_title(Some("K".into()), Some("T"), None), Some("K".to_string()));
}

#[test]
fn direct_links_are_transcoded_at_once() {
    let (job, action) = StreamJob::begin("https://radio.example/live.mp3", None, None, None, false);
    assert!(job.finished());
    match action {
        StreamAction::Transcode(args) => assert_eq!(args[19], "https://radio.example/live.mp3"),
        _ => panic!("expected transcoding"),
    }
}

#[test]
fn soundcloud_course() {
    let (mut job, a) = StreamJob::begin("https://soundcloud.com/some-band/great-song", Some(5), None, None, false);
    let (args, cookies, t) = extract_args(&a);
    assert_eq!(args.last().unwrap(), "https://soundcloud.com/some-band/great-song");
    assert!(!cookies);
    assert_eq!(t, 6000);
    let a = job.advance(StreamEvent::Link(None));
    let (_, cookies, t) = extract_args(&a);
    assert!(cookies);
    assert_eq!(t, 4000);
    let a = job.advance(StreamEvent::Link(None));
    let (args, _, t) = extract_args(&a);
    assert_eq!(args.last().unwrap(), "scsearch5:great song some band");
    assert_eq!(t, 6000);
    let a = job.advance(StreamEvent::Link(None));
    let (args, _, t) = extract_args(&a);
    assert_eq!(args.last().unwrap(), "scsearch5:great song");
    assert_eq!(t, 5000);
    let a = job.advance(StreamEvent::Link(Some("https://cf-media.sndcdn.com/x".into())));
    match a {
        StreamAction::Transcode(args) => {
            assert_eq!(args[5], "https://soundcloud.com/");
            assert_eq!(&args[18..20], &["-ss".to_string(), "5".to_string()]);
        }
        _ => panic!("expected transcoding"),
    }
    assert!(job.finished());
    assert!(matches!(job.advance(StreamEvent::Link(None)), StreamAction::Done));
}

#[test]
fn soundcloud_course_gives_up() {
    let (mut job, _) = StreamJob::begin("scsearch2:x", None, None, None, false);
    let a = job.advance(StreamEvent::Link(None));
    assert!(matches!(a, StreamAction::Extract(_)));
    // no title and no slug: no searches follow
    assert!(matches!(job.advance(StreamEvent::Link(None)), StreamAction::NotFound));
    assert!(job.finished());
}

#[test]
fn youtube_course_with_every_fallback() {
    let target = "https://www.youtube.com/watch?v=abc";
    let (mut job, a) = StreamJob::begin(target, None, None, None, false);
    let (args, cookies, t) = extract_args(&a);
    assert_eq!(args[4], "bestaudio/ba/b");
    assert!(cookies);
    assert_eq!(t, 3000);
    match job.advance(StreamEvent::Link(None)) {
        StreamAction::LookUpTitle(u) => assert_eq!(u, oembed_url(target)),
        _ => panic!("expected a title lookup"),
    }
    let a = job.advance(StreamEvent::Titles(Some(" Song (Official Video) ".into()), Some(" Band ".into())));
    let (args, cookies, t) = extract_args(&a);
    assert_eq!(args.last().unwrap(), "scsearch5:Song Band");
    assert!(!cookies);
    assert_eq!(t, 6000);
    let a = job.advance(StreamEvent::Link(None));
    let (args, _, t) = extract_args(&a);
    assert_eq!(args.last().unwrap(), "scsearch5:Song");
    assert_eq!(t, 5000);
    match job.advance(StreamEvent::Link(None)) {
        StreamAction::AskMirrors(v) => assert_eq!(v, "abc"),
        _ => panic!("expected the mirrors"),
    }
    match job.advance(StreamEvent::Link(None)) {
        StreamAction::RelayCloud(u) => assert_eq!(u, cloud_stream_url(target, None, None, None)),
        _ => panic!("expected the cloud relay"),
    }
    assert!(matches!(job.advance(StreamEvent::Relayed(false)), StreamAction::NotFound));
    assert!(job.finished());
}

#[test]
fn youtube_course_on_the_cloud_instance_never_relays() {
    let (mut job, _) = StreamJob::begin("https://example.com/watch", None, Some("Song"), None, true);
    let a = job.advance(StreamEvent::Link(None));
    let (args, _, _) = extract_args(&a);
    assert_eq!(args.last().unwrap(), "scsearch5:Song");
    assert!(matches!(job.advance(StreamEvent::Link(None)), StreamAction::NotFound));
}

#[test]
fn youtube_course_finds_a_link_on_the_mirrors() {
    let (mut job, _) = StreamJob::begin("https://youtu.be/xyz", Some(0), None, None, false);
    assert!(matches!(job.advance(StreamEvent::Link(None)), StreamAction::LookUpTitle(_)));
    // the lookup failed: no title, so no searches
    match job.advance(StreamEvent::Titles(None, None)) {
        StreamAction::AskMirrors(v) => assert_eq!(v, "xyz"),
        _ => panic!("expected the mirrors"),
    }
    match job.advance(StreamEvent::Link(Some("https://m/a".into()))) {
        StreamAction::Transcode(args) => assert_eq!(args[19], "https://m/a"),
        _ => panic!("expected transcoding"),
    }
}
