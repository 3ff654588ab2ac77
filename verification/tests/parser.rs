use bandcamper::error::ParsePageError;
use bandcamper::json::PathFault;
use bandcamper::parser::{
    batch_from, collection_from, downloads_from, parse_collection_json, parse_collection_page,
    parse_data_blob, parse_download_page, parse_home_page, username_from, value_at,
    CollectionJSON, CollectionPageData,
};
use bandcamper::records::DownloadOption;
use bandcamper::types::{CollectionItem, CollectionItemKind, Encoding};

fn escape(text: &str) -> String {
    text.replace('&', "&amp;").replace('"', "&quot;").replace('<', "&lt;")
}

fn page(blob: &str) -> String {
    format!(
        "<!DOCTYPE html><html><head><title>t</title></head><body><p>hello</p><div id=\"pagedata\" data-blob=\"{}\"></div></body></html>",
        escape(blob)
    )
}

fn home(link: &str, blob: &str) -> String {
    format!(
        "<html><body><ul><li id=\"other\"><a href=\"/no\">x</a></li><li id=\"collection-main\"><a {}>collection</a></li></ul><div id=\"pagedata\" data-blob=\"{}\"></div></body></html>",
        link,
        escape(blob)
    )
}

fn record(title: &str, artist: &str, kind: &str, sale_type: &str, sale_id: u64) -> String {
    format!(
        "{{\"item_title\":\"{}\",\"band_name\":\"{}\",\"tralbum_type\":\"a\",\"tralbum_id\":1,\"item_type\":\"{}\",\"item_id\":2,\"sale_item_id\":{},\"sale_item_type\":\"{}\",\"extra\":[1,2.5,null]}}",
        title, artist, kind, sale_id, sale_type
    )
}

fn item(kind: CollectionItemKind, title: &str, artist: &str, url: &str) -> CollectionItem {
    CollectionItem {
        itype: kind,
        title: title.to_string(),
        artist: artist.to_string(),
        download_url: url.to_string(),
    }
}

fn collection_blob() -> String {
    format!(
        "{{\"fan_data\":{{\"fan_id\":4711}},\"collection_data\":{{\"last_token\":\"tok:1\",\"sequence\":[\"a2\",\"t1\"],\"redownload_urls\":{{\"p10\":\"https://x/10\",\"r20\":\"https://x/20\",\"unused\":\"https://x/0\"}}}},\"item_cache\":{{\"collection\":{{\"t1\":{},\"a2\":{}}}}}}}",
        record("Song", "Singer", "track", "p", 10),
        record("Disc", "Band", "album", "r", 20)
    )
}

#[test]
fn home_page_yields_username_and_link() {
    let html = home("href=\"https://bandcamp.com/someone\"", "{\"identities\":{\"fan\":{\"username\":\"someone\"}}}");
    let (username, link) = parse_home_page(&html).unwrap();
    assert_eq!(username, "someone");
    assert_eq!(link, "https://bandcamp.com/someone");
}

#[test]
fn home_page_without_link_is_refused() {
    let html = page("{\"identities\":{\"fan\":{\"username\":\"someone\"}}}");
    assert!(matches!(
        parse_home_page(&html),
        Err(ParsePageError::NoHtmlElement("li#collection-main > a"))
    ));
}

#[test]
fn home_page_link_without_address_is_refused() {
    let html = home("name=\"x\"", "{\"identities\":{\"fan\":{\"username\":\"someone\"}}}");
    assert!(matches!(
        parse_home_page(&html),
        Err(ParsePageError::NoHtmlElement("li#collection-main > a"))
    ));
}

#[test]
fn home_page_without_data_block_is_refused() {
    let html = "<html><body><li id=\"collection-main\"><a href=\"/c\">c</a></li></body></html>";
    assert!(matches!(parse_home_page(html), Err(ParsePageError::PageDataNotFound)));
}

#[test]
fn home_page_without_username_is_refused() {
    let html = home("href=\"/c\"", "{\"identities\":{\"fan\":null}}");
    assert!(matches!(
        parse_home_page(&html),
        Err(ParsePageError::InvalidJSON("identities.fan.username", PathFault::BadPathElement))
    ));
    let html = home("href=\"/c\"", "{\"identities\":{\"fan\":{\"username\":5}}}");
    assert!(matches!(
        parse_home_page(&html),
        Err(ParsePageError::InvalidJSON("identities.fan.username", PathFault::WrongShape))
    ));
    let html = home("href=\"/c\"", "{\"identities\":7}");
    assert!(matches!(
        parse_home_page(&html),
        Err(ParsePageError::InvalidJSON("identities.fan.username", PathFault::BadPathElement))
    ));
}

#[test]
fn data_block_is_found_and_parsed() {
    assert!(parse_data_blob(&page("{\"a\":[1,2,3]}")).is_ok());
    assert!(matches!(parse_data_blob("<html></html>"), Err(ParsePageError::PageDataNotFound)));
    assert!(matches!(
        parse_data_blob("<div id=\"pagedata\"></div>"),
        Err(ParsePageError::PageDataNotFound)
    ));
    assert!(matches!(
        parse_data_blob("<div id=\"other\" data-blob=\"{}\"></div>"),
        Err(ParsePageError::PageDataNotFound)
    ));
    assert!(matches!(parse_data_blob(&page("{not json")), Err(ParsePageError::PageDataNotJSON(_))));
    assert!(matches!(parse_data_blob(&page("")), Err(ParsePageError::PageDataNotJSON(_))));
}

#[test]
fn username_is_read_from_the_data_block() {
    let value = parse_data_blob(&page("{\"identities\":{\"fan\":{\"username\":\"u\"}}}")).unwrap();
    assert_eq!(username_from(&value).unwrap(), "u");
    let value = parse_data_blob(&page("[1]")).unwrap();
    assert!(matches!(
        username_from(&value),
        Err(ParsePageError::InvalidJSON("identities.fan.username", PathFault::InvalidKey(key)))
            if key == "identities"
    ));
    let value = parse_data_blob(&page("[]")).unwrap();
    assert!(matches!(
        username_from(&value),
        Err(ParsePageError::InvalidJSON("identities.fan.username", PathFault::BadPathElement))
    ));
}

#[test]
fn collection_page_joins_its_tables_in_sequence_order() {
    let data = parse_collection_page(&page(&collection_blob())).unwrap();
    assert_eq!(
        data,
        CollectionPageData {
            fan_id: 4711,
            last_token: "tok:1".to_string(),
            collection_items: vec![
                item(CollectionItemKind::Album, "Disc", "Band", "https://x/20"),
                item(CollectionItemKind::Track, "Song", "Singer", "https://x/10"),
            ],
        }
    );
}

#[test]
fn collection_page_takes_only_what_the_sequence_names() {
    let blob = collection_blob().replace("[\"a2\",\"t1\"]", "[\"t1\"]");
    let data = parse_collection_page(&page(&blob)).unwrap();
    assert_eq!(
        data.collection_items,
        vec![item(CollectionItemKind::Track, "Song", "Singer", "https://x/10")]
    );
    let blob = collection_blob().replace("[\"a2\",\"t1\"]", "[]");
    let data = parse_collection_page(&page(&blob)).unwrap();
    assert_eq!(data.collection_items, vec![]);
    assert_eq!(data.fan_id, 4711);
}

#[test]
fn collection_page_without_address_for_a_sale_is_refused() {
    let blob = collection_blob().replace("\"r20\"", "\"r21\"");
    match parse_collection_page(&page(&blob)) {
        Err(ParsePageError::MissingRedownloadUrl(key)) => assert_eq!(key, "r20"),
        other => panic!("{:?}", other),
    }
}

#[test]
fn collection_page_with_unknown_key_is_refused() {
    let blob = collection_blob().replace("[\"a2\",\"t1\"]", "[\"a2\",\"zz\"]");
    match parse_collection_page(&page(&blob)) {
        Err(ParsePageError::MissingItem(key)) => assert_eq!(key, "zz"),
        other => panic!("{:?}", other),
    }
}

#[test]
fn collection_page_may_name_a_key_twice() {
    let blob = collection_blob().replace("[\"a2\",\"t1\"]", "[\"a2\",\"t1\",\"a2\"]");
    let data = parse_collection_page(&page(&blob)).unwrap();
    assert_eq!(
        data.collection_items,
        vec![
            item(CollectionItemKind::Album, "Disc", "Band", "https://x/20"),
            item(CollectionItemKind::Track, "Song", "Singer", "https://x/10"),
            item(CollectionItemKind::Album, "Disc", "Band", "https://x/20"),
        ]
    );
}

#[test]
fn collection_page_items_of_one_sale_share_its_address() {
    let blob = format!(
        "{{\"fan_data\":{{\"fan_id\":1}},\"collection_data\":{{\"last_token\":\"t\",\"sequence\":[\"x\",\"y\"],\"redownload_urls\":{{\"p10\":\"https://x/10\"}}}},\"item_cache\":{{\"collection\":{{\"x\":{},\"y\":{}}}}}}}",
        record("One", "A", "track", "p", 10),
        record("Two", "B", "track", "p", 10)
    );
    let data = parse_collection_page(&page(&blob)).unwrap();
    assert_eq!(
        data.collection_items,
        vec![
            item(CollectionItemKind::Track, "One", "A", "https://x/10"),
            item(CollectionItemKind::Track, "Two", "B", "https://x/10"),
        ]
    );
}

#[test]
fn batch_items_of_one_sale_share_its_address() {
    let data = format!(
        "{{\"items\":[{},{}],\"last_token\":\"t\",\"more_available\":false,\"redownload_urls\":{{\"p10\":\"https://x/10\"}}}}",
        record("One", "A", "track", "p", 10),
        record("Two", "B", "album", "p", 10)
    );
    let batch = parse_collection_json(&data).unwrap();
    assert_eq!(
        batch.collection_items,
        vec![
            item(CollectionItemKind::Track, "One", "A", "https://x/10"),
            item(CollectionItemKind::Album, "Two", "B", "https://x/10"),
        ]
    );
}

#[test]
fn collection_page_names_the_path_at_fault() {
    let fault = |blob: &str| match parse_collection_page(&page(blob)) {
        Err(ParsePageError::InvalidJSON(path, fault)) => (path, fault),
        other => panic!("{:?}", other),
    };
    assert_eq!(fault("{}"), ("item_cache.collection", PathFault::BadPathElement));
    assert_eq!(fault("{\"item_cache\":5}"), ("item_cache.collection", PathFault::BadPathElement));
    assert_eq!(
        fault("{\"item_cache\":{\"collection\":[]}}"),
        ("item_cache.collection", PathFault::WrongShape)
    );
    assert_eq!(
        fault("{\"item_cache\":{\"collection\":{\"a\":{}}}}"),
        ("item_cache.collection", PathFault::WrongShape)
    );
    assert_eq!(
        fault("{\"item_cache\":{\"collection\":{}}}"),
        ("collection_data.redownload_urls", PathFault::BadPathElement)
    );
    assert_eq!(
        fault("{\"item_cache\":{\"collection\":{}},\"collection_data\":{\"redownload_urls\":{\"a\":1}}}"),
        ("collection_data.redownload_urls", PathFault::WrongShape)
    );
    assert_eq!(
        fault("{\"item_cache\":{\"collection\":{}},\"collection_data\":{\"redownload_urls\":{}}}"),
        ("collection_data.sequence", PathFault::BadPathElement)
    );
    assert_eq!(
        fault("{\"item_cache\":{\"collection\":{}},\"collection_data\":{\"redownload_urls\":{},\"sequence\":[1]}}"),
        ("collection_data.sequence", PathFault::WrongShape)
    );
    assert_eq!(
        fault("{\"item_cache\":{\"collection\":{}},\"collection_data\":{\"redownload_urls\":{},\"sequence\":[]}}"),
        ("fan_data.fan_id", PathFault::BadPathElement)
    );
    assert_eq!(
        fault("{\"item_cache\":{\"collection\":{}},\"collection_data\":{\"redownload_urls\":{},\"sequence\":[]},\"fan_data\":{\"fan_id\":-3}}"),
        ("fan_data.fan_id", PathFault::WrongShape)
    );
    assert_eq!(
        fault("{\"item_cache\":{\"collection\":{}},\"collection_data\":{\"redownload_urls\":{},\"sequence\":[]},\"fan_data\":{\"fan_id\":1.5}}"),
        ("fan_data.fan_id", PathFault::WrongShape)
    );
    assert_eq!(
        fault("{\"item_cache\":{\"collection\":{}},\"collection_data\":{\"redownload_urls\":{},\"sequence\":[]},\"fan_data\":{\"fan_id\":3}}"),
        ("collection_data.last_token", PathFault::BadPathElement)
    );
}

#[test]
fn collection_page_without_data_block_is_refused() {
    assert!(matches!(
        parse_collection_page("<html><body></body></html>"),
        Err(ParsePageError::PageDataNotFound)
    ));
    assert!(matches!(
        parse_collection_page(&page("[1,")),
        Err(ParsePageError::PageDataNotJSON(_))
    ));
}

#[test]
fn collection_is_read_from_the_data_block() {
    let value = parse_data_blob(&page(&collection_blob())).unwrap();
    let data = collection_from(&value).unwrap();
    assert_eq!(data.fan_id, 4711);
    assert_eq!(data.last_token, "tok:1");
    assert_eq!(data.collection_items.len(), 2);
}

fn batch(more: bool) -> String {
    format!(
        "{{\"items\":[{},{}],\"last_token\":\"tok:2\",\"more_available\":{},\"redownload_urls\":{{\"r20\":\"https://x/20\",\"p10\":\"https://x/10\"}},\"ignored\":1}}",
        record("Song", "Singer", "track", "p", 10),
        record("Disc", "Band", "album", "r", 20),
        more
    )
}

#[test]
fn batch_yields_items_in_document_order() {
    let data = parse_collection_json(&batch(true)).unwrap();
    assert_eq!(
        data,
        CollectionJSON {
            more_available: true,
            last_token: "tok:2".to_string(),
            collection_items: vec![
                item(CollectionItemKind::Track, "Song", "Singer", "https://x/10"),
                item(CollectionItemKind::Album, "Disc", "Band", "https://x/20"),
            ],
        }
    );
    let data = parse_collection_json(&batch(false)).unwrap();
    assert!(!data.more_available);
}

#[test]
fn batch_that_is_no_json_is_refused() {
    assert!(matches!(parse_collection_json("nope"), Err(ParsePageError::PageDataNotJSON(_))));
    assert!(matches!(parse_collection_json(""), Err(ParsePageError::PageDataNotJSON(_))));
}

#[test]
fn batch_names_the_field_at_fault() {
    let fault = |data: &str| match parse_collection_json(data) {
        Err(ParsePageError::InvalidJSON(path, fault)) => (path, fault),
        other => panic!("{:?}", other),
    };
    assert_eq!(fault("{}"), ("items", PathFault::BadPathElement));
    assert_eq!(fault("{\"items\":{}}"), ("items", PathFault::WrongShape));
    assert_eq!(fault("{\"items\":[1]}"), ("items", PathFault::WrongShape));
    assert_eq!(fault("{\"items\":[]}"), ("last_token", PathFault::BadPathElement));
    assert_eq!(fault("{\"items\":[],\"last_token\":1}"), ("last_token", PathFault::WrongShape));
    assert_eq!(
        fault("{\"items\":[],\"last_token\":\"t\"}"),
        ("more_available", PathFault::BadPathElement)
    );
    assert_eq!(
        fault("{\"items\":[],\"last_token\":\"t\",\"more_available\":\"yes\"}"),
        ("more_available", PathFault::WrongShape)
    );
    assert_eq!(
        fault("{\"items\":[],\"last_token\":\"t\",\"more_available\":true}"),
        ("redownload_urls", PathFault::BadPathElement)
    );
    assert_eq!(
        fault("{\"items\":[],\"last_token\":\"t\",\"more_available\":true,\"redownload_urls\":[]}"),
        ("redownload_urls", PathFault::WrongShape)
    );
}

#[test]
fn batch_without_address_for_a_sale_is_refused() {
    let data = batch(true).replace("\"p10\"", "\"p11\"");
    match parse_collection_json(&data) {
        Err(ParsePageError::MissingRedownloadUrl(key)) => assert_eq!(key, "p10"),
        other => panic!("{:?}", other),
    }
}

#[test]
fn batch_is_read_from_its_document() {
    let value = parse_data_blob(&page(&batch(false))).unwrap();
    let data = batch_from(&value).unwrap();
    assert_eq!(data.last_token, "tok:2");
    assert_eq!(data.collection_items.len(), 2);
}

fn downloads_blob(items: &str) -> String {
    format!("{{\"digital_items\":[{}]}}", items)
}

fn digital_item() -> String {
    "{\"downloads\":{\"flac\":{\"encoding_name\":\"flac\",\"size_mb\":\"1.1GB\",\"url\":\"https://d/flac\",\"description\":\"FLAC\"},\"mp3-320\":{\"encoding_name\":\"mp3-320\",\"size_mb\":\"1125MB\",\"url\":\"https://d/mp3\"}}}".to_string()
}

fn sorted(mut options: Vec<DownloadOption>) -> Vec<DownloadOption> {
    options.sort_by(|a, b| a.url.cmp(&b.url));
    options
}

#[test]
fn download_page_yields_the_options_of_its_item() {
    let options = parse_download_page(&page(&downloads_blob(&digital_item()))).unwrap();
    assert_eq!(
        sorted(options),
        vec![
            DownloadOption {
                encoding: Encoding::Flac,
                approximate_size: 1181116006,
                url: "https://d/flac".to_string(),
            },
            DownloadOption {
                encoding: Encoding::MP3320,
                approximate_size: 1179648000,
                url: "https://d/mp3".to_string(),
            },
        ]
    );
}

#[test]
fn download_page_knows_every_encoding() {
    let names = [
        ("aac-hi", Encoding::Aac),
        ("aiff-lossless", Encoding::Aiff),
        ("alac", Encoding::Alac),
        ("flac", Encoding::Flac),
        ("mp3-320", Encoding::MP3320),
        ("mp3-v0", Encoding::MP3V0),
        ("vorbis", Encoding::Ogg),
        ("wav", Encoding::Wav),
    ];
    for (name, encoding) in names {
        let blob = downloads_blob(&format!(
            "{{\"downloads\":{{\"x\":{{\"encoding\":\"{}\",\"approximate_size\":\"1K\",\"url\":\"u\"}}}}}}",
            name
        ));
        let options = parse_download_page(&page(&blob)).unwrap();
        assert_eq!(
            options,
            vec![DownloadOption { encoding, approximate_size: 1024, url: "u".to_string() }]
        );
    }
}

#[test]
fn download_page_with_another_count_of_items_is_refused() {
    assert!(matches!(
        parse_download_page(&page(&downloads_blob(""))),
        Err(ParsePageError::UnexpectedDownloadDigitalItemCount(0))
    ));
    let two = format!("{},{}", digital_item(), digital_item());
    assert!(matches!(
        parse_download_page(&page(&downloads_blob(&two))),
        Err(ParsePageError::UnexpectedDownloadDigitalItemCount(2))
    ));
}

#[test]
fn download_page_names_the_path_at_fault() {
    let fault = |blob: &str| match parse_download_page(&page(blob)) {
        Err(ParsePageError::InvalidJSON(path, fault)) => (path, fault),
        other => panic!("{:?}", other),
    };
    assert_eq!(fault("{}"), ("digital_items", PathFault::BadPathElement));
    assert_eq!(fault("{\"digital_items\":{\"a\":1}}"), ("digital_items", PathFault::WrongShape));
    assert_eq!(fault("{\"digital_items\":[{}]}"), ("digital_items.0.downloads", PathFault::BadPathElement));
    assert_eq!(fault("{\"digital_items\":[7]}"), ("digital_items.0.downloads", PathFault::BadPathElement));
    assert_eq!(
        fault("{\"digital_items\":[{\"downloads\":[]}]}"),
        ("digital_items.0.downloads", PathFault::WrongShape)
    );
    assert_eq!(
        fault("{\"digital_items\":[{\"downloads\":{\"x\":{\"encoding_name\":\"opus\",\"size_mb\":\"1K\",\"url\":\"u\"}}}]}"),
        ("digital_items.0.downloads", PathFault::WrongShape)
    );
    assert_eq!(
        fault("{\"digital_items\":[{\"downloads\":{\"x\":{\"encoding_name\":\"flac\",\"size_mb\":\"big\",\"url\":\"u\"}}}]}"),
        ("digital_items.0.downloads", PathFault::WrongShape)
    );
    assert_eq!(
        fault("{\"digital_items\":[{\"downloads\":{\"x\":{\"encoding_name\":\"flac\",\"size_mb\":12,\"url\":\"u\"}}}]}"),
        ("digital_items.0.downloads", PathFault::WrongShape)
    );
    assert_eq!(
        fault("{\"digital_items\":[{\"downloads\":{\"x\":{\"encoding_name\":\"flac\",\"size_mb\":\"1K\"}}}]}"),
        ("digital_items.0.downloads", PathFault::WrongShape)
    );
    assert_eq!(
        fault("{\"digital_items\":[{\"downloads\":{\"x\":{\"encoding_name\":\"flac\",\"encoding\":\"flac\",\"size_mb\":\"1K\",\"url\":\"u\"}}}]}"),
        ("digital_items.0.downloads", PathFault::WrongShape)
    );
}

#[test]
fn download_page_without_data_block_is_refused() {
    assert!(matches!(parse_download_page("<p>x</p>"), Err(ParsePageError::PageDataNotFound)));
}

#[test]
fn downloads_are_read_from_the_data_block() {
    let value = parse_data_blob(&page(&downloads_blob(&digital_item()))).unwrap();
    assert_eq!(downloads_from(&value).unwrap().len(), 2);
    let value = parse_data_blob(&page("{\"digital_items\":[{\"downloads\":{}}]}")).unwrap();
    assert_eq!(downloads_from(&value).unwrap(), vec![]);
}

#[test]
fn paths_are_followed_through_objects_and_arrays() {
    let value = parse_data_blob(&page("{\"a\":{\"b\":[10,{\"c\":\"deep\"},null]},\"n\":null,\"s\":\"text\"}")).unwrap();
    let json = |text: &str| -> serde_json::Value { serde_json::from_str(text).unwrap() };
    assert_eq!(value_at(&value, "a.b.0").unwrap(), json("10"));
    assert_eq!(value_at(&value, "a.b.1.c").unwrap(), json("\"deep\""));
    assert_eq!(value_at(&value, "a.b").unwrap(), json("[10,{\"c\":\"deep\"},null]"));
    assert_eq!(value_at(&value, "s").unwrap(), json("\"text\""));
    let fault = |path: &'static str| match value_at(&value, path) {
        Err(ParsePageError::InvalidJSON(at, fault)) => {
            assert_eq!(at, path);
            fault
        }
        other => panic!("{:?}", other),
    };
    assert_eq!(fault("a.x"), PathFault::BadPathElement);
    assert_eq!(fault("n"), PathFault::BadPathElement);
    assert_eq!(fault("n.x"), PathFault::BadPathElement);
    assert_eq!(fault("a.b.2"), PathFault::BadPathElement);
    assert_eq!(fault("s.x"), PathFault::BadPathElement);
    assert_eq!(fault("a.b.3"), PathFault::BadIndex(3));
    assert_eq!(fault("a.b.17"), PathFault::BadIndex(17));
    assert_eq!(fault("a.b.x"), PathFault::InvalidKey("x".to_string()));
    assert_eq!(fault("a..b"), PathFault::InvalidKey("".to_string()));
    assert_eq!(fault(""), PathFault::InvalidKey("".to_string()));
}
