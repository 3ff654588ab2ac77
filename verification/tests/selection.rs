use bandcamper::cookies::{
    access_order, cookie_header, is_accessed_before, keep_service_cookies, last_access,
    order_profiles, BrowserCookie,
};
use bandcamper::downloader::{declared_media, read_media_headers, GetMediaError, MediaInfo};
use bandcamper::format::pick_format;
use bandcamper::login::{choose_login, Login, LoginChoice};
use bandcamper::records::DownloadOption;
use bandcamper::types::Encoding;

fn option(encoding: Encoding, url: &str) -> DownloadOption {
    DownloadOption { encoding, approximate_size: 1, url: url.to_string() }
}

#[test]
fn first_preference_on_offer_is_picked() {
    let items = vec![
        option(Encoding::MP3320, "a"),
        option(Encoding::Flac, "b"),
        option(Encoding::Wav, "c"),
        option(Encoding::Flac, "d"),
    ];
    assert_eq!(pick_format(&vec![Encoding::Flac], &items), Some(&items[1]));
    assert_eq!(pick_format(&vec![Encoding::Ogg, Encoding::Wav, Encoding::Flac], &items), Some(&items[2]));
    assert_eq!(pick_format(&vec![Encoding::MP3320, Encoding::Flac], &items), Some(&items[0]));
}

#[test]
fn no_other_encoding_stands_in() {
    let items = vec![option(Encoding::MP3320, "a"), option(Encoding::Flac, "b")];
    assert_eq!(pick_format(&vec![Encoding::Ogg], &items), None);
    assert_eq!(pick_format(&vec![Encoding::Ogg, Encoding::Alac], &items), None);
    assert_eq!(pick_format(&vec![], &items), None);
    assert_eq!(pick_format(&vec![Encoding::Flac], &vec![]), None);
}

fn login(name: &str) -> Login {
    Login { username: name.to_string(), collection_link: format!("https://x/{}", name) }
}

#[test]
fn login_is_chosen_as_asked() {
    let none: Vec<Login> = vec![];
    let one = vec![login("ann")];
    let many = vec![login("ann"), login("bob"), login("ann")];
    assert_eq!(choose_login(None, &none), LoginChoice::NotLoggedIn);
    assert_eq!(choose_login(Some("ann"), &none), LoginChoice::NotLoggedIn);
    assert_eq!(choose_login(None, &one), LoginChoice::Chosen(0));
    assert_eq!(choose_login(Some("ann"), &one), LoginChoice::Chosen(0));
    assert_eq!(choose_login(Some("bob"), &one), LoginChoice::OtherAccount);
    assert_eq!(choose_login(None, &many), LoginChoice::Ambiguous);
    assert_eq!(choose_login(Some("bob"), &many), LoginChoice::Chosen(1));
    assert_eq!(choose_login(Some("ann"), &many), LoginChoice::Chosen(0));
    assert_eq!(choose_login(Some("cat"), &many), LoginChoice::UnknownAccount);
    assert_eq!(choose_login(Some("Ann"), &many), LoginChoice::UnknownAccount);
}

fn info(filename: &str, content_length: u64) -> MediaInfo {
    MediaInfo { filename: filename.to_string(), content_length }
}

#[test]
fn media_headers_yield_name_and_length() {
    let read = read_media_headers(
        Some(b"attachment; filename=\"My CR - Abc 123.zip\"; filename*=UTF-8''x"),
        Some(b"1048576"),
        "{}",
    );
    assert_eq!(read.unwrap(), info("My CR - Abc 123.zip", 1048576));
    let read = read_media_headers(Some(b"filename  =\t\"tr\xc3\xa4ck.flac\""), Some(b"0"), "{}");
    assert_eq!(read.unwrap(), info("träck.flac", 0));
    let read = read_media_headers(Some(b"x filename=\"a\" filename=\"b\""), Some(b"+7"), "{}");
    assert_eq!(read.unwrap(), info("a", 7));
}

#[test]
fn media_headers_name_each_fault() {
    assert!(matches!(
        read_media_headers(None, Some(b"1"), "{\"a\": \"b\"}"),
        Err(GetMediaError::NoContentDisposition(headers)) if headers == "{\"a\": \"b\"}"
    ));
    assert!(matches!(
        read_media_headers(None, None, "h"),
        Err(GetMediaError::NoContentDisposition(headers)) if headers == "h"
    ));
    assert!(matches!(
        read_media_headers(Some(b"attachment"), Some(b"1"), "h"),
        Err(GetMediaError::InvalidContentDisposition(value)) if value == b"attachment"
    ));
    assert!(matches!(
        read_media_headers(Some(b"filename=\"\""), Some(b"1"), "h"),
        Err(GetMediaError::InvalidContentDisposition(value)) if value == b"filename=\"\""
    ));
    assert!(matches!(
        read_media_headers(Some(b"filename=a.zip"), Some(b"1"), "h"),
        Err(GetMediaError::InvalidContentDisposition(value)) if value == b"filename=a.zip"
    ));
    assert!(matches!(
        read_media_headers(Some(b"filename=\"a\""), None, "h"),
        Err(GetMediaError::NoContentLength)
    ));
    assert!(matches!(
        read_media_headers(Some(b"filename=\"a\""), Some(b"12x"), "h"),
        Err(GetMediaError::InvalidContentLength(value)) if value == b"12x"
    ));
    assert!(matches!(
        read_media_headers(Some(b"filename=\"a\""), Some(b""), "h"),
        Err(GetMediaError::InvalidContentLength(value)) if value == b""
    ));
    assert!(matches!(
        read_media_headers(Some(b"filename=\"a\""), Some(b"18446744073709551616"), "h"),
        Err(GetMediaError::InvalidContentLength(value)) if value == b"18446744073709551616"
    ));
}

#[test]
fn declared_media_checks_the_name_that_was_found() {
    assert_eq!(
        declared_media(Some(b"d"), Some(b"a.flac".to_vec()), Some(b"5"), "h").unwrap(),
        info("a.flac", 5)
    );
    assert!(matches!(
        declared_media(Some(b"d"), Some(vec![0x61, 0xff]), Some(b"5"), "h"),
        Err(GetMediaError::InvalidFilename(name, fault))
            if name == vec![0x61, 0xff] && fault.valid_up_to() == 1
    ));
    assert!(matches!(
        declared_media(Some(b"d"), None, Some(b"5"), "h"),
        Err(GetMediaError::InvalidContentDisposition(value)) if value == b"d"
    ));
    assert!(matches!(
        declared_media(None, Some(b"a".to_vec()), Some(b"5"), "h"),
        Err(GetMediaError::NoContentDisposition(headers)) if headers == "h"
    ));
    assert!(matches!(
        declared_media(Some(b"d"), Some(b"a".to_vec()), None, "h"),
        Err(GetMediaError::NoContentLength)
    ));
    assert!(matches!(
        declared_media(Some(b"d"), Some(b"a".to_vec()), Some(b"x"), "h"),
        Err(GetMediaError::InvalidContentLength(value)) if value == b"x"
    ));
}

fn cookie(host: &str, name: &str, accessed: Option<i128>) -> BrowserCookie {
    BrowserCookie {
        host: host.to_string(),
        name: name.to_string(),
        value: format!("value of {}", name),
        last_accessed: accessed,
    }
}

#[test]
fn cookie_header_names_the_domain() {
    assert_eq!(
        cookie_header(&cookie(".bandcamp.com", "identity", None)),
        "identity=value of identity; Domain=bandcamp.com"
    );
}

#[test]
fn service_cookies_are_kept_in_order() {
    let cookies = vec![
        cookie("bandcamp.com", "a", None),
        cookie("example.com", "b", None),
        cookie(".bandcamp.com", "c", Some(1)),
        cookie("bandcamp.com.evil.org", "d", None),
        cookie("notbandcamp.com", "e", None),
        cookie("", "f", None),
    ];
    let kept = keep_service_cookies(&cookies);
    let names: Vec<&str> = kept.iter().map(|cookie| cookie.name.as_str()).collect();
    assert_eq!(names, vec!["a", "c", "e"]);
    assert_eq!(kept[1], cookies[2]);
    assert_eq!(keep_service_cookies(&vec![]), vec![]);
}

#[test]
fn last_access_is_the_latest() {
    assert_eq!(last_access(&vec![]), None);
    assert_eq!(last_access(&vec![cookie("h", "a", None)]), None);
    assert_eq!(
        last_access(&vec![cookie("h", "a", Some(5)), cookie("h", "b", None), cookie("h", "c", Some(-3))]),
        Some(5)
    );
    assert_eq!(last_access(&vec![cookie("h", "a", None), cookie("h", "b", Some(-3))]), Some(-3));
    assert!(is_accessed_before(None, Some(i128::MIN)));
    assert!(is_accessed_before(Some(1), Some(2)));
    assert!(!is_accessed_before(Some(2), Some(2)));
    assert!(!is_accessed_before(Some(2), None));
    assert!(!is_accessed_before(None, None));
}

#[test]
fn access_order_is_stable() {
    assert_eq!(access_order(&vec![]), Vec::<usize>::new());
    assert_eq!(access_order(&vec![Some(3)]), vec![0]);
    assert_eq!(
        access_order(&vec![Some(3), None, Some(1), Some(3), None, Some(2)]),
        vec![1, 4, 2, 5, 0, 3]
    );
    assert_eq!(access_order(&vec![Some(1), Some(1), Some(1)]), vec![0, 1, 2]);
    assert_eq!(access_order(&vec![Some(3), Some(2), Some(1)]), vec![2, 1, 0]);
}

#[test]
fn profiles_are_cleaned_and_ordered() {
    let profiles = vec![
        vec![cookie("bandcamp.com", "late", Some(30)), cookie("example.com", "x", Some(99))],
        vec![cookie("example.com", "none", Some(50))],
        vec![],
        vec![cookie("bandcamp.com", "early", Some(10)), cookie("bandcamp.com", "early2", None)],
        vec![cookie("bandcamp.com", "never", None)],
        vec![cookie("bandcamp.com", "late2", Some(30))],
    ];
    let ordered = order_profiles(&profiles);
    let names: Vec<Vec<&str>> = ordered
        .iter()
        .map(|profile| profile.iter().map(|cookie| cookie.name.as_str()).collect())
        .collect();
    assert_eq!(names, vec![vec!["never"], vec!["early", "early2"], vec!["late"], vec!["late2"]]);
    assert_eq!(order_profiles(&vec![]), Vec::<Vec<BrowserCookie>>::new());
}
