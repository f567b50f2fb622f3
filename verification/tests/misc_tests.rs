use recro::config::{
    base_url, browser_profile_dirs, cookie_candidates, cookie_file_target, cookie_refresh_args,
    cookies_from_env, extractor_command, listen_port, local_extractor_path,
};
use recro::cover::{check_cover_body, check_cover_reply, cover_target, health_check};
use recro::mail::{
    api_html_body, brevo_sender, connect_host, mail_route, resend_sender, smtp_html_body,
    smtp_settings, smtp_text_body, verification_subject, MailRoute, SMTP_CREDENTIALS_MISSING,
    SMTP_HOST_MISSING,
};
use recro::requests::{CoverParams, ExtractParams, SearchParams, StreamParams};
use recro::search::QueryKind;
use recro::security::IpAddress;
use recro::stats::{persona_for, personality_for, Persona};
use recro::status::HttpStatus;

#[test]
fn personality_from_the_leading_genre() {
    assert_eq!(persona_for(Some("Synthwave"), 1), Persona::CyberArchitect);
    assert_eq!(persona_for(Some("ELECTRONIC"), 1), Persona::CyberArchitect);
    assert_eq!(persona_for(Some("Chillout"), 1), Persona::CosmicDrifter);
    assert_eq!(persona_for(Some("Hip-Hop"), 1), Persona::RhythmStrategist);
    assert_eq!(persona_for(Some("Heavy Metal"), 1), Persona::OverdrivenDriver);
    assert_eq!(persona_for(Some("Jazz"), 31), Persona::AudioSingularity);
    assert_eq!(persona_for(Some("Jazz"), 30), Persona::FrequencyExplorer);
    assert_eq!(persona_for(None, 100), Persona::AudioSingularity);
    let p = personality_for(Some("Techno"), 0);
    assert_eq!(p.title, "Кибер-Архитектор");
    assert_eq!(p.tag, "#CYBER_SOUND");
    let e = personality_for(None, 0);
    assert_eq!(e.tag, "#EXPLORER");
}

#[test]
fn mail_service_and_smtp_settings() {
    assert_eq!(mail_route(Some("k"), Some("r")), MailRoute::Brevo);
    assert_eq!(mail_route(Some("  "), Some("r")), MailRoute::ResendThenSmtp);
    assert_eq!(mail_route(None, None), MailRoute::Smtp);
    assert_eq!(brevo_sender(None), "noreply@signal-audio.io");
    assert_eq!(resend_sender(Some("me")), "me");
    assert_eq!(smtp_settings("", "p", None, None, None).err(), Some(SMTP_CREDENTIALS_MISSING));
    assert_eq!(smtp_settings("me@corp", "p", None, None, None).err(), Some(SMTP_HOST_MISSING));
    let g = smtp_settings("me@gmail.com", "p", Some("  "), None, None).unwrap();
    assert_eq!((g.host.as_str(), g.port, g.sender.as_str(), g.implicit_tls), ("smtp.gmail.com", 587, "me@gmail.com", false));
    let y = smtp_settings("me@yandex.com", "p", None, Some("x"), Some("From <f@x>")).unwrap();
    assert_eq!((y.host.as_str(), y.port, y.sender.as_str(), y.implicit_tls), ("smtp.yandex.ru", 465, "From <f@x>", true));
    let c = smtp_settings("user", "p", Some(" mail.host "), Some("2525"), None).unwrap();
    assert_eq!((c.host.as_str(), c.port, c.sender.as_str()), (" mail.host ", 2525, "noreply@signal-audio.io"));
    let big = smtp_settings("u@mail.ru", "p", None, Some("70000"), None).unwrap();
    assert_eq!((big.host.as_str(), big.port), ("smtp.mail.ru", 465));
    let addrs = vec![IpAddress::V6(0x2a00, 0, 0, 0, 0, 0, 0, 1), IpAddress::V4(64, 233, 165, 109)];
    assert_eq!(connect_host(&addrs, "smtp.gmail.com"), "64.233.165.109");
    assert_eq!(connect_host(&Vec::new(), "smtp.gmail.com"), "smtp.gmail.com");
}

#[test]
fn mail_texts_carry_the_code() {
    assert_eq!(verification_subject("123456"), "Код подтверждения SIGNAL: 123456");
    assert!(api_html_body("123456").contains("letter-spacing:6px;'>123456</h1>"));
    assert!(smtp_text_body("123456").contains(">>>  123456  <<<"));
    assert!(smtp_html_body("123456").contains("monospace;\">123456</div>"));
}

#[test]
fn environment_settings() {
    assert_eq!(base_url(Some("app.example"), Some("1")), "https://app.example");
    assert_eq!(base_url(None, Some("9000")), "http://localhost:9000");
    assert_eq!(base_url(None, None), "http://localhost:8085");
    assert_eq!(listen_port(Some("3000")), 3000);
    assert_eq!(listen_port(Some("-1")), 8085);
    assert_eq!(listen_port(None), 8085);
    assert_eq!(local_extractor_path("/home/u"), "/home/u/.local/bin/yt-dlp");
    assert_eq!(extractor_command("/home/u", false), "yt-dlp");
    let c = cookie_candidates(Some("/cfg/c.txt"), "/home/u");
    assert_eq!(c.len(), 8);
    assert_eq!(c[0], "/cfg/c.txt");
    assert_eq!(c[1], "/data/cookies.txt");
    assert_eq!(c[7], "/home/u/.config/yt-dlp/cookies.txt");
    assert_eq!(cookie_candidates(None, "/h").len(), 7);
    assert_eq!(cookies_from_env(Some("  # cookies \n")), Some("# cookies".to_string()));
    assert_eq!(cookies_from_env(Some("  ")), None);
    assert_eq!(cookie_file_target(false, true, true), "/app/cookies.txt");
    assert_eq!(cookie_file_target(false, false, false), "cookies.txt");
    assert_eq!(browser_profile_dirs("/h").0, "/h/.config/chromium");
    assert_eq!(cookie_refresh_args("/h")[1], "/h/music-player/backend/cookies.txt");
}

#[test]
fn cover_proxy_checks() {
    assert_eq!(health_check(), "Recro // Rust Engine Online");
    assert_eq!(cover_target(" https://i.ytimg.com/x.jpg "), Ok("https://i.ytimg.com/x.jpg".to_string()));
    assert_eq!(cover_target("ftp://x"), Err(HttpStatus::BadRequest));
    assert_eq!(cover_target(""), Err(HttpStatus::BadRequest));
    assert_eq!(check_cover_reply(Some(10 * 1024 * 1024 + 1), Some("image/png")), Err(HttpStatus::PayloadTooLarge));
    assert_eq!(check_cover_reply(Some(10), Some("Image/PNG")), Ok("Image/PNG".to_string()));
    assert_eq!(check_cover_reply(None, None), Ok("image/jpeg".to_string()));
    assert_eq!(check_cover_reply(None, Some("application/octet-stream")), Ok("application/octet-stream".to_string()));
    assert_eq!(check_cover_reply(None, Some("text/html")), Err(HttpStatus::BadRequest));
    assert_eq!(check_cover_body(10 * 1024 * 1024), Ok(()));
    assert_eq!(check_cover_body(10 * 1024 * 1024 + 1), Err(HttpStatus::PayloadTooLarge));
    assert_eq!(HttpStatus::PayloadTooLarge.code(), 413);
}

#[test]
fn request_parameters() {
    assert_eq!(SearchParams { q: " ".into() }.kind(), QueryKind::Empty);
    assert_eq!(ExtractParams { url: " https://youtu.be/x ".into() }.target(), Ok("https://youtu.be/x".to_string()));
    assert_eq!(CoverParams { url: "http://x/y.png".into() }.target(), Ok("http://x/y.png".to_string()));
    let p = StreamParams { url: None, id: Some("abc".into()), ss: Some(5), title: None, artist: None };
    assert_eq!(p.target(), Ok("https://www.youtube.com/watch?v=abc".to_string()));
    let empty = StreamParams { url: None, id: None, ss: None, title: Some("  ".into()), artist: None };
    assert_eq!(empty.target(), Err(HttpStatus::BadRequest));
}
