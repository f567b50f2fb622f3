use recro::links::{
    cloud_extract_url, cloud_search_url, cover_link_of, extract_video_id, rebase_stream_url,
    requires_ssrf_check, trusted_host, web_url,
};
use recro::security::{
    check_resolved_addresses, check_url_target, get_client_ip, is_private_or_restricted_ip,
    trust_proxy_enabled, IpAddress,
};
use recro::status::HttpStatus;

#[test]
fn restricted_addresses() {
    assert!(is_private_or_restricted_ip(IpAddress::V4(127, 0, 0, 1)));
    assert!(is_private_or_restricted_ip(IpAddress::V4(10, 1, 2, 3)));
    assert!(is_private_or_restricted_ip(IpAddress::V4(172, 16, 0, 1)));
    assert!(is_private_or_restricted_ip(IpAddress::V4(192, 168, 1, 1)));
    assert!(is_private_or_restricted_ip(IpAddress::V4(169, 254, 169, 254)));
    assert!(is_private_or_restricted_ip(IpAddress::V4(0, 0, 0, 0)));
    assert!(is_private_or_restricted_ip(IpAddress::V4(255, 255, 255, 255)));
    assert!(!is_private_or_restricted_ip(IpAddress::V4(8, 8, 8, 8)));
    assert!(!is_private_or_restricted_ip(IpAddress::V4(172, 32, 0, 1)));
    assert!(is_private_or_restricted_ip(IpAddress::V6(0, 0, 0, 0, 0, 0, 0, 1)));
    assert!(is_private_or_restricted_ip(IpAddress::V6(0, 0, 0, 0, 0, 0, 0, 0)));
    assert!(is_private_or_restricted_ip(IpAddress::V6(0xfd00, 0, 0, 0, 0, 0, 0, 1)));
    assert!(is_private_or_restricted_ip(IpAddress::V6(0xfe80, 0, 0, 0, 0, 0, 0, 1)));
    assert!(!is_private_or_restricted_ip(IpAddress::V6(0x2001, 0x4860, 0, 0, 0, 0, 0, 0x8888)));
}

#[test]
fn url_targets_are_checked_before_resolving() {
    assert_eq!(check_url_target("https://example.com/a.png"), Ok(("example.com".to_string(), 443)));
    assert_eq!(check_url_target("http://example.com:8080/"), Ok(("example.com".to_string(), 8080)));
    assert_eq!(check_url_target("http://LOCALHOST/"), Err(HttpStatus::Forbidden));
    assert_eq!(check_url_target("http://printer.local/"), Err(HttpStatus::Forbidden));
    assert_eq!(check_url_target("http://db.internal/"), Err(HttpStatus::Forbidden));
    assert_eq!(check_url_target("http://127.0.0.1/"), Err(HttpStatus::Forbidden));
    assert_eq!(check_url_target("ftp://example.com/"), Err(HttpStatus::BadRequest));
    assert_eq!(check_url_target("not a url"), Err(HttpStatus::BadRequest));
}

#[test]
fn any_restricted_resolution_is_refused() {
    let public = vec![IpAddress::V4(93, 184, 216, 34)];
    assert_eq!(check_resolved_addresses(&public), Ok(()));
    let mixed = vec![IpAddress::V4(93, 184, 216, 34), IpAddress::V4(10, 0, 0, 1)];
    assert_eq!(check_resolved_addresses(&mixed), Err(HttpStatus::Forbidden));
    assert_eq!(check_resolved_addresses(&Vec::new()), Err(HttpStatus::BadRequest));
}

#[test]
fn client_address_honours_proxy_headers_only_when_trusted() {
    assert!(trust_proxy_enabled(Some("true")));
    assert!(trust_proxy_enabled(Some("1")));
    assert!(!trust_proxy_enabled(Some("yes")));
    assert!(!trust_proxy_enabled(None));
    let peer = Some("5.5.5.5".to_string());
    assert_eq!(get_client_ip(true, Some(" 1.1.1.1 , 2.2.2.2"), Some("3.3.3.3"), peer.clone()), "1.1.1.1");
    assert_eq!(get_client_ip(true, Some("  "), Some(" 3.3.3.3 "), peer.clone()), "3.3.3.3");
    assert_eq!(get_client_ip(false, Some("1.1.1.1"), Some("3.3.3.3"), peer.clone()), "5.5.5.5");
    assert_eq!(get_client_ip(false, None, None, None), "127.0.0.1");
}

#[test]
fn video_ids_from_links() {
    assert_eq!(extract_video_id("https://www.youtube.com/watch?v=dQw4w9WgXcQ&t=1"), Some("dQw4w9WgXcQ".to_string()));
    assert_eq!(extract_video_id("https://youtu.be/abc123?si=x"), Some("abc123".to_string()));
    assert_eq!(extract_video_id("https://www.youtube.com/watch?v=&list=1"), None);
    assert_eq!(extract_video_id("https://www.youtube.com/watch?v=abcdefghijklmnopqrstu"), None);
    assert_eq!(extract_video_id("https://example.com/"), None);
}

#[test]
fn links_through_the_backend() {
    assert_eq!(
        cover_link_of("http://b", "https://i.ytimg.com/a b.jpg"),
        "http://b/api/cover?url=https%3A%2F%2Fi.ytimg.com%2Fa%20b.jpg"
    );
    assert_eq!(
        rebase_stream_url("https://cloud.example/api/stream?url=x", "http://localhost:8085"),
        "http://localhost:8085/api/stream?url=x"
    );
    assert_eq!(rebase_stream_url("https://other/x", "http://b"), "https://other/x");
    assert_eq!(
        cloud_search_url("кино group"),
        "https://signal-audio-backend-production.up.railway.app/api/search?q=%D0%BA%D0%B8%D0%BD%D0%BE%20group"
    );
    assert_eq!(
        cloud_extract_url("https://youtu.be/x"),
        "https://signal-audio-backend-production.up.railway.app/api/extract?url=https%3A%2F%2Fyoutu.be%2Fx"
    );
}

#[test]
fn link_classes() {
    assert!(web_url("https://x"));
    assert!(!web_url("ftp://x"));
    assert!(trusted_host("https://youtu.be/x"));
    assert!(!trusted_host("https://example.com"));
    assert!(requires_ssrf_check("https://example.com"));
    assert!(!requires_ssrf_check("https://soundcloud.com/a"));
    assert!(!requires_ssrf_check("just words"));
}
