use uptime_monitor::url::{parse_url, Scheme};

fn parts(url: &str) -> Option<(Scheme, String, String)> {
    parse_url(url)
}

#[test]
fn http_with_path() {
    assert_eq!(
        parts("http://192.168.1.50:8080/health?x=1"),
        Some((Scheme::Http, "192.168.1.50:8080".into(), "/health?x=1".into()))
    );
}

#[test]
fn https_without_path() {
    assert_eq!(
        parts("https://example.org"),
        Some((Scheme::Https, "example.org".into(), "/".into()))
    );
}

#[test]
fn empty_authority() {
    assert_eq!(parts("http://"), Some((Scheme::Http, "".into(), "/".into())));
    assert_eq!(parts("http:///a"), Some((Scheme::Http, "".into(), "/a".into())));
}

#[test]
fn query_without_path_belongs_to_the_authority() {
    assert_eq!(
        parts("http://host?q=/x"),
        Some((Scheme::Http, "host?q=".into(), "/x".into()))
    );
}

#[test]
fn non_ascii_url() {
    assert_eq!(
        parts("https://héé.例/ü/中"),
        Some((Scheme::Https, "héé.例".into(), "/ü/中".into()))
    );
}

#[test]
fn rejected_urls() {
    assert_eq!(parts(""), None);
    assert_eq!(parts("ftp://x/"), None);
    assert_eq!(parts("HTTP://x/"), None);
    assert_eq!(parts("http:/x"), None);
    assert_eq!(parts(" http://x"), None);
}

#[test]
fn the_parts_make_up_a_url_with_the_same_parts() {
    for (url, whole) in [
        ("http://host", "http://host/"),
        ("https://", "https:///"),
        ("http://host/a?b", "http://host/a?b"),
        ("https://host/", "https://host/"),
    ] {
        let (scheme, authority, path) = parts(url).unwrap();
        let text = match scheme {
            Scheme::Http => "http://",
            Scheme::Https => "https://",
        };
        assert_eq!(format!("{text}{authority}{path}"), whole);
        assert_eq!(parts(whole), parts(url));
    }
}
