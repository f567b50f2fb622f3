use recro::library::{
    playlist_out, playlist_row, playlist_rows, station_out, station_row, station_rows,
    sync_stamp, track_out, track_row, track_rows, StoredPlaylist, StoredStation, StoredTrack,
    SyncPlaylist, SyncStation, SyncTrack,
};

fn track(id: Option<&str>, audio: Option<&str>) -> SyncTrack {
    SyncTrack {
        id: id.map(|s| s.to_string()),
        title: None,
        artist: Some("Band".into()),
        album: None,
        audio_url: audio.map(|s| s.to_string()),
        cover_url: None,
        genre: None,
        format: Some("ogg".into()),
        bitrate: None,
        plays: None,
        is_favorite: Some(true),
        is_live_stream: None,
        is_local_upload: Some(false),
        playlist_only: None,
        added_at: None,
    }
}

#[test]
fn saved_tracks_get_defaults_and_need_id_and_link() {
    let r = track_row(&track(Some("t1"), Some("http://a"))).unwrap();
    assert_eq!(r.title, "");
    assert_eq!(r.artist, "Band");
    assert_eq!(r.genre, "Music");
    assert_eq!(r.format, "ogg");
    assert_eq!(r.plays, 0);
    assert_eq!((r.is_favorite, r.is_live_stream, r.is_local_upload, r.playlist_only), (1, 0, 0, 0));
    assert_eq!(r.added_at, "");
    assert!(track_row(&track(Some(""), Some("http://a"))).is_none());
    assert!(track_row(&track(Some("t1"), None)).is_none());
    let items = vec![
        track(Some("a"), Some("u")),
        track(None, Some("u")),
        track(Some("b"), Some("")),
        track(Some("c"), Some("u")),
    ];
    let rows = track_rows(&items);
    assert_eq!(rows.len(), 2);
    assert_eq!((rows[0].0, rows[0].1.id.as_str()), (0, "a"));
    assert_eq!((rows[1].0, rows[1].1.id.as_str()), (3, "c"));
}

#[test]
fn saved_playlists_and_stations() {
    let p = SyncPlaylist { id: Some("p".into()), title: None, description: None, cover_text: None, track_ids_json: None };
    let r = playlist_row(&p).unwrap();
    assert_eq!((r.title.as_str(), r.description.as_str(), r.cover_text.as_str(), r.track_ids_json.as_str()), ("", "", "PL", "[]"));
    let none = SyncPlaylist { id: None, title: Some("x".into()), description: None, cover_text: None, track_ids_json: None };
    assert!(playlist_row(&none).is_none());
    assert_eq!(playlist_rows(&vec![none, p]).len(), 1);

    let s = SyncStation { id: Some("s".into()), name: None, stream_url: Some("http://r".into()), genre: None, country: None, bitrate: None, favicon: None, is_custom: None };
    let r = station_row(&s).unwrap();
    assert_eq!(r.is_custom, 1);
    assert_eq!(r.name, "");
    let not_custom = SyncStation { is_custom: Some(false), ..s };
    assert_eq!(station_row(&not_custom).unwrap().is_custom, 0);
    let no_link = SyncStation { stream_url: None, ..not_custom };
    assert!(station_row(&no_link).is_none());
    assert_eq!(station_rows(&vec![no_link]).len(), 0);
    assert_eq!(sync_stamp(Some(7), 99), 7);
    assert_eq!(sync_stamp(None, 99), 99);
}

#[test]
fn saved_track_reads_back() {
    let row = track_row(&track(Some("t1"), Some("http://a"))).unwrap();
    let stored = StoredTrack {
        id: row.id.clone(),
        title: row.title.clone(),
        artist: row.artist.clone(),
        album: row.album.clone(),
        audio_url: row.audio_url.clone(),
        cover_url: row.cover_url.clone(),
        genre: Some(row.genre.clone()),
        format: Some(row.format.clone()),
        bitrate: row.bitrate.clone(),
        plays: row.plays,
        is_favorite: row.is_favorite,
        is_live_stream: row.is_live_stream,
        is_local_upload: row.is_local_upload,
        playlist_only: row.playlist_only,
        added_at: Some(row.added_at.clone()),
    };
    let out = track_out(stored);
    assert_eq!(out.id, "t1");
    assert_eq!(out.genre, "Music");
    assert_eq!(out.format, "ogg");
    assert!(out.is_favorite);
    assert!(!out.is_local_upload);
    assert_eq!(out.added_at, "");
}

#[test]
fn stored_rows_are_answered_with_defaults() {
    let out = track_out(StoredTrack {
        id: "i".into(), title: "t".into(), artist: "a".into(), album: None, audio_url: "u".into(),
        cover_url: None, genre: None, format: None, bitrate: None, plays: 3, is_favorite: 1,
        is_live_stream: 2, is_local_upload: 0, playlist_only: 1, added_at: None,
    });
    assert_eq!((out.genre.as_str(), out.format.as_str()), ("Music", "mp3"));
    assert_eq!((out.is_favorite, out.is_live_stream, out.playlist_only), (true, false, true));
    let p = playlist_out(StoredPlaylist { id: "p".into(), title: "T".into(), description: None, cover_text: None, track_ids_json: "[\"a\",\"b\"]".into() });
    assert_eq!(p.track_ids, vec!["a".to_string(), "b".to_string()]);
    assert_eq!((p.description.as_str(), p.cover_text.as_str()), ("", "PL"));
    let bad = playlist_out(StoredPlaylist { id: "p".into(), title: "T".into(), description: Some("d".into()), cover_text: Some("C".into()), track_ids_json: "[1,2]".into() });
    assert!(bad.track_ids.is_empty());
    let st = station_out(StoredStation { id: "s".into(), name: "n".into(), stream_url: "u".into(), genre: None, country: None, bitrate: None, favicon: None, is_custom: 1 });
    assert_eq!(st.genre, "Radio");
    assert!(st.is_custom);
}
