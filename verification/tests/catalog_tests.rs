use recro::search::{
    classify_query, first_occurrence_indices, is_radio_mix, merge_search_results,
    pick_main_video, search_arguments, validate_extract_url, QueryKind, SearchSource,
};
use recro::status::HttpStatus;
use recro::title::{clean_music_title, clean_music_title_checked};
use recro::tracks::{
    audius_search_url, audius_track, audius_tracks, chapter_track, AudiusItem, oembed_track, parse_track_json, TrackFields,
    TrackId,
};

fn s(v: &[&str]) -> Vec<String> {
    v.iter().map(|x| x.to_string()).collect()
}

fn fields() -> TrackFields {
    TrackFields {
        id: None,
        title: None,
        uploader: None,
        channel: None,
        artist: None,
        webpage_url: None,
        url: None,
        last_thumbnail_url: None,
        thumbnail: None,
    }
}

#[test]
fn titles_are_cleaned_for_searching() {
    assert_eq!(clean_music_title("Artist - Song (Official Video) [HD]"), "Artist - Song");
    assert_eq!(clean_music_title("Кино - Группа крови (Official Audio) | 4K"), "Кино - Группа крови");
    assert_eq!(clean_music_title("Song Name Official Music Video"), "Song Name");
    assert_eq!(clean_music_title("Track_#1 feat. X"), "Track 1 feat X");
    assert_eq!(clean_music_title("Песня {Премьера клипа} 2024"), "Песня 2024");
    assert_eq!(clean_music_title("Unclosed (bracket"), "Unclosed bracket");
    assert_eq!(clean_music_title(""), "");
    assert_eq!(clean_music_title("İstanbul (Live)"), "İstanbul");
}

#[test]
fn noise_words_are_cut_by_byte_positions() {
    assert_eq!(clean_music_title_checked("İstanbul (Live)"), Some("İstanbul".to_string()));
    // the lower-cased İ takes one byte more, so the cut lands one byte late
    assert_eq!(clean_music_title("İstanbul Official Video now"), "İstanbul O now");
    // here the late cut would end past the text
    assert_eq!(clean_music_title_checked("İstanbul Official Video"), None);
    assert_eq!(clean_music_title_checked("Hit (Lyrics)"), Some("Hit".to_string()));
}

#[test]
fn search_results_merge_without_repeats() {
    let audius = s(&["a1", "x"]);
    let sc = s(&["s1", "x", "s2"]);
    let yt = s(&["y1", "s1"]);
    let merged = merge_search_results(&audius, &sc, &yt);
    assert_eq!(
        merged,
        vec![
            (SearchSource::Audius, 0),
            (SearchSource::Audius, 1),
            (SearchSource::SoundCloud, 0),
            (SearchSource::YouTube, 0),
            (SearchSource::SoundCloud, 2),
        ]
    );
    assert_eq!(first_occurrence_indices(&s(&["a", "b", "a", "c", "b"])), vec![0, 1, 3]);
    assert_eq!(merge_search_results(&Vec::new(), &Vec::new(), &Vec::new()), Vec::new());
}

#[test]
fn queries_are_classified() {
    assert_eq!(classify_query("   "), QueryKind::Empty);
    assert_eq!(classify_query(" https://example.com/a.mp3 "), QueryKind::Link { check_ssrf: true });
    assert_eq!(classify_query("https://youtu.be/x"), QueryKind::Link { check_ssrf: false });
    assert_eq!(classify_query("кино"), QueryKind::Words);
    let (yt, sc) = search_arguments("кино");
    assert_eq!(yt, "ytsearch10:кино");
    assert_eq!(sc, "scsearch10:кино");
}

#[test]
fn extraction_links() {
    assert_eq!(validate_extract_url("  https://youtu.be/x "), Ok("https://youtu.be/x".to_string()));
    assert_eq!(validate_extract_url("  "), Err(HttpStatus::BadRequest));
    assert_eq!(validate_extract_url("--exec=rm"), Err(HttpStatus::BadRequest));
    assert!(is_radio_mix("https://www.youtube.com/watch?v=a&list=RDa"));
    assert!(is_radio_mix("https://www.youtube.com/watch?v=a&list=ULa"));
    assert!(!is_radio_mix("https://www.youtube.com/playlist?list=PLa"));
}

#[test]
fn main_video_choice() {
    let ids = s(&["a", "b"]);
    assert_eq!(pick_main_video(&ids, Some("b"), "u"), Some(1));
    assert_eq!(pick_main_video(&ids, Some("z"), "https://y/watch?list=1"), None);
    assert_eq!(pick_main_video(&ids, None, "https://y/watch?v=a"), Some(0));
    assert_eq!(pick_main_video(&Vec::new(), None, "x"), None);
}

#[test]
fn extractor_records_become_tracks() {
    let mut f = fields();
    f.id = Some(TrackId::Text("abc".into()));
    f.title = Some("Song".into());
    f.channel = Some("Chan".into());
    f.url = Some("abc".into());
    f.thumbnail = Some("https://i.ytimg.com/vi/abc/hq.jpg".into());
    let t = parse_track_json(&f, "http://b").unwrap();
    assert_eq!(t.id, "abc");
    assert_eq!(t.title, "Song");
    assert_eq!(t.artist, "Chan");
    assert_eq!(
        t.audio_url,
        "http://b/api/stream?url=https%3A%2F%2Fwww.youtube.com%2Fwatch%3Fv%3Dabc"
    );
    assert_eq!(
        t.cover_url,
        Some("http://b/api/cover?url=https%3A%2F%2Fi.ytimg.com%2Fvi%2Fabc%2Fhq.jpg".to_string())
    );

    let mut g = fields();
    g.id = Some(TrackId::Number(-42));
    g.webpage_url = Some("https://soundcloud.com/a/b".into());
    g.last_thumbnail_url = Some("https://img/x.jpg".into());
    let t = parse_track_json(&g, "http://b").unwrap();
    assert_eq!(t.id, "-42");
    assert_eq!(t.title, "Без названия");
    assert_eq!(t.artist, "Неизвестный исполнитель");
    assert_eq!(t.cover_url, Some("https://img/x.jpg".to_string()));

    let mut h = fields();
    h.id = Some(TrackId::Text(String::new()));
    assert!(parse_track_json(&h, "http://b").is_none());
    assert!(parse_track_json(&fields(), "http://b").is_none());
}

#[test]
fn audius_results() {
    let t = audius_track(Some("D1"), Some(" Title "), None, Some("handle"), None, "http://b").unwrap();
    assert_eq!(t.id, "audius-D1");
    assert_eq!(t.title, "Title");
    assert_eq!(t.artist, "handle");
    assert_eq!(
        t.audio_url,
        "http://b/api/stream?url=https%3A%2F%2Fdiscoveryprovider.audius.co%2Fv1%2Ftracks%2FD1%2Fstream%3Fapp_name%3DRECRO_MUSIC&title=Title&artist=handle"
    );
    assert!(audius_track(Some(""), None, None, None, None, "http://b").is_none());
    assert_eq!(
        audius_search_url("a b", 6),
        "https://discoveryprovider.audius.co/v1/tracks/search?query=a%20b&app_name=RECRO_MUSIC&limit=6"
    );
}

#[test]
fn chapters_and_oembed_tracks() {
    let c = chapter_track("vid", 0, Some(" Intro "), 90, Some("Band"), None, "http://b");
    assert_eq!(c.id, "vid_ch_1");
    assert_eq!(c.title, "Intro");
    assert_eq!(c.artist, "Band");
    assert_eq!(
        c.audio_url,
        "http://b/api/stream?url=https%3A%2F%2Fwww.youtube.com%2Fwatch%3Fv%3Dvid&ss=90&title=Intro&artist=Band"
    );
    let c2 = chapter_track("vid", 1, None, 0, None, Some("cov".into()), "http://b");
    assert_eq!(c2.title, "Без названия");
    assert_eq!(c2.artist, "Разные исполнители");
    assert_eq!(c2.cover_url, Some("cov".to_string()));

    let o = oembed_track("vid", None, Some("Singer - Topic"), Some("https://i/t.jpg"), "http://b");
    assert_eq!(o.title, "YouTube Track");
    assert_eq!(o.artist, "Singer");
    assert_eq!(o.cover_url, Some("http://b/api/cover?url=https%3A%2F%2Fi%2Ft.jpg".to_string()));
}

fn audius_item(id: &str, kept: bool, big: Option<&str>, small: Option<&str>) -> AudiusItem {
    AudiusItem {
        id: Some(id.to_string()),
        title: Some("T".to_string()),
        user_name: Some("N".to_string()),
        user_handle: None,
        cover_480: big.map(|c| c.to_string()),
        cover_150: small.map(|c| c.to_string()),
        duration_kept: kept,
    }
}

#[test]
fn audius_result_lists_keep_order_and_skip() {
    let items = vec![
        audius_item("a", true, None, Some("s")),
        audius_item("b", false, None, None),
        audius_item("", true, None, None),
        audius_item("c", true, Some("l"), Some("s")),
    ];
    let picked = audius_tracks(&items, "http://b");
    let summary: Vec<(usize, String)> = picked.iter().map(|(i, t)| (*i, t.id.clone())).collect();
    assert_eq!(summary, vec![(0, "audius-a".to_string()), (3, "audius-c".to_string())]);
    let with_cover = |id: &str, c: &str| {
        audius_track(Some(id), Some("T"), Some("N"), None, Some(c.to_string()), "http://b").unwrap().cover_url
    };
    assert_eq!(picked[0].1.cover_url, with_cover("a", "s"));
    assert_eq!(picked[1].1.cover_url, with_cover("c", "l"));
    assert_ne!(with_cover("c", "l"), with_cover("c", "s"));
}
