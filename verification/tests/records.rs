use bandcamper::error::ParsePageError;
use bandcamper::join::{assemble_collection, attach_download_urls, pick_items, sale_key_of};
use bandcamper::parser::parse_data_blob;
use bandcamper::records::{
    encoding_from_name, kind_from_name, read_download_option, read_item, read_option_list,
    read_record_list, read_record_table, read_text, read_text_list, read_text_table,
    DownloadOption, ItemCacheCollectionItem,
};
use bandcamper::types::{CollectionItem, CollectionItemKind, Encoding};

fn value(json: &str) -> serde_json::Value {
    serde_json::from_str(json).unwrap()
}

fn record(key: &str, sale_type: &str, sale_id: u64) -> ItemCacheCollectionItem {
    ItemCacheCollectionItem {
        title: format!("title {}", key),
        artist: format!("artist {}", key),
        tralbum_type: "a".to_string(),
        tralbum_id: 1,
        item_type: CollectionItemKind::Album,
        item_id: 2,
        sale_item_id: sale_id,
        sale_item_type: sale_type.to_string(),
    }
}

fn made(key: &str, url: &str) -> CollectionItem {
    CollectionItem {
        itype: CollectionItemKind::Album,
        title: format!("title {}", key),
        artist: format!("artist {}", key),
        download_url: url.to_string(),
    }
}

fn strings(items: &[&str]) -> Vec<String> {
    items.iter().map(|s| s.to_string()).collect()
}

const RECORD: &str = "{\"title\":\"T\",\"artist\":\"A\",\"tralbum_type\":\"t\",\"tralbum_id\":11,\"item_type\":\"Track\",\"item_id\":12,\"sale_item_id\":13,\"sale_item_type\":\"p\"}";

#[test]
fn item_is_read_under_either_name() {
    let expected = ItemCacheCollectionItem {
        title: "T".to_string(),
        artist: "A".to_string(),
        tralbum_type: "t".to_string(),
        tralbum_id: 11,
        item_type: CollectionItemKind::Track,
        item_id: 12,
        sale_item_id: 13,
        sale_item_type: "p".to_string(),
    };
    assert_eq!(read_item(&value(RECORD)), Some(expected.clone()));
    let other = RECORD.replace("\"title\"", "\"item_title\"").replace("\"artist\"", "\"band_name\"");
    assert_eq!(read_item(&value(&other)), Some(expected));
}

#[test]
fn item_with_a_field_missing_twice_or_mistyped_is_refused() {
    assert_eq!(read_item(&value(&RECORD.replace("\"title\":\"T\",", ""))), None);
    assert_eq!(read_item(&value(&RECORD.replace("\"sale_item_type\"", "\"sale_type\""))), None);
    assert_eq!(
        read_item(&value(&RECORD.replace("\"title\":\"T\",", "\"title\":\"T\",\"item_title\":\"T\","))),
        None
    );
    assert_eq!(read_item(&value(&RECORD.replace("\"tralbum_id\":11", "\"tralbum_id\":\"11\""))), None);
    assert_eq!(read_item(&value(&RECORD.replace("\"item_id\":12", "\"item_id\":-12"))), None);
    assert_eq!(read_item(&value(&RECORD.replace("\"sale_item_id\":13", "\"sale_item_id\":1.5"))), None);
    assert_eq!(read_item(&value(&RECORD.replace("\"Track\"", "\"single\""))), None);
    assert_eq!(read_item(&value(&RECORD.replace("\"artist\":\"A\"", "\"artist\":null"))), None);
    assert_eq!(read_item(&value("[]")), None);
    assert_eq!(read_item(&value("\"text\"")), None);
    assert_eq!(read_item(&value("null")), None);
}

#[test]
fn kinds_and_encodings_go_by_their_names() {
    assert_eq!(kind_from_name("album"), Some(CollectionItemKind::Album));
    assert_eq!(kind_from_name("Album"), Some(CollectionItemKind::Album));
    assert_eq!(kind_from_name("track"), Some(CollectionItemKind::Track));
    assert_eq!(kind_from_name("Track"), Some(CollectionItemKind::Track));
    assert_eq!(kind_from_name("ALBUM"), None);
    assert_eq!(kind_from_name(""), None);
    assert_eq!(encoding_from_name("vorbis"), Some(Encoding::Ogg));
    assert_eq!(encoding_from_name("mp3-v0"), Some(Encoding::MP3V0));
    assert_eq!(encoding_from_name("ogg"), None);
    assert_eq!(encoding_from_name("FLAC"), None);
}

#[test]
fn encodings_are_shown_by_their_names() {
    assert_eq!(Encoding::Aac.name(), "aac");
    assert_eq!(Encoding::Aiff.name(), "aiff");
    assert_eq!(Encoding::Alac.name(), "alac");
    assert_eq!(Encoding::Flac.name(), "flac");
    assert_eq!(Encoding::MP3320.name(), "mp3_320");
    assert_eq!(Encoding::MP3V0.name(), "mp3_v0");
    assert_eq!(Encoding::Ogg.name(), "ogg");
    assert_eq!(Encoding::Wav.name(), "wav");
}

#[test]
fn download_option_is_read_under_either_name() {
    let expected = DownloadOption {
        encoding: Encoding::Wav,
        approximate_size: 11809382,
        url: "https://u".to_string(),
    };
    let json = "{\"encoding_name\":\"wav\",\"size_mb\":\"11532.6K\",\"url\":\"https://u\"}";
    assert_eq!(read_download_option(&value(json)), Some(expected.clone()));
    let json = "{\"encoding\":\"wav\",\"approximate_size\":\"11532.6K\",\"url\":\"https://u\",\"x\":1}";
    assert_eq!(read_download_option(&value(json)), Some(expected));
    assert_eq!(read_download_option(&value("{\"encoding\":\"wav\",\"url\":\"https://u\"}")), None);
    assert_eq!(read_download_option(&value("7")), None);
}

#[test]
fn lists_and_tables_are_read_whole_or_not_at_all() {
    assert_eq!(read_text(&value("\"a\"")), Some("a".to_string()));
    assert_eq!(read_text(&value("1")), None);
    assert_eq!(read_text_list(&value("[\"a\",\"b\"]")), Some(strings(&["a", "b"])));
    assert_eq!(read_text_list(&value("[]")), Some(vec![]));
    assert_eq!(read_text_list(&value("[\"a\",1]")), None);
    assert_eq!(read_text_list(&value("{}")), None);
    assert_eq!(
        read_text_table(&value("{\"k\":\"v\"}")),
        Some(vec![("k".to_string(), "v".to_string())])
    );
    assert_eq!(read_text_table(&value("{\"k\":\"v\",\"l\":null}")), None);
    assert_eq!(read_text_table(&value("[]")), None);
    assert_eq!(read_record_list(&value(&format!("[{},{}]", RECORD, RECORD))).unwrap().len(), 2);
    assert_eq!(read_record_list(&value(&format!("[{},{{}}]", RECORD))), None);
    let table = read_record_table(&value(&format!("{{\"x\":{}}}", RECORD))).unwrap();
    assert_eq!(table.len(), 1);
    assert_eq!(table[0].0, "x");
    assert_eq!(table[0].1.sale_item_id, 13);
    assert_eq!(read_record_table(&value("{\"x\":1}")), None);
    assert_eq!(read_option_list(&value("{}")), Some(vec![]));
    assert_eq!(read_option_list(&value("{\"x\":{}}")), None);
}

#[test]
fn page_data_is_handed_on_unchanged() {
    let html = "<div id=\"pagedata\" data-blob=\"{&quot;a&quot;:[true,null,&quot;x&quot;,12]}\"></div>";
    assert_eq!(parse_data_blob(html).unwrap(), value("{\"a\":[true,null,\"x\",12]}"));
}

#[test]
fn sale_key_is_type_and_number() {
    assert_eq!(sale_key_of(&record("a", "p", 10)), "p10");
    assert_eq!(sale_key_of(&record("a", "r", 0)), "r0");
    assert_eq!(sale_key_of(&record("a", "", 18446744073709551615)), "18446744073709551615");
    assert_eq!(sale_key_of(&record("a", "s1", 1)), "s11");
}

#[test]
fn items_are_picked_in_sequence_order() {
    let table = vec![
        ("a".to_string(), record("a", "s", 1)),
        ("b".to_string(), record("b", "s", 2)),
        ("c".to_string(), record("c", "s", 3)),
    ];
    let picked = pick_items(&strings(&["c", "a"]), &table).unwrap();
    assert_eq!(picked, vec![record("c", "s", 3), record("a", "s", 1)]);
    assert_eq!(pick_items(&strings(&[]), &table).unwrap(), vec![]);
    assert!(matches!(
        pick_items(&strings(&["a", "d"]), &table),
        Err(ParsePageError::MissingItem(key)) if key == "d"
    ));
    assert!(matches!(
        pick_items(&strings(&["e", "d"]), &table),
        Err(ParsePageError::MissingItem(key)) if key == "e"
    ));
}

#[test]
fn a_key_named_twice_is_looked_up_twice() {
    let table = vec![
        ("a".to_string(), record("a", "s", 1)),
        ("b".to_string(), record("b", "s", 2)),
    ];
    let picked = pick_items(&strings(&["a", "b", "a"]), &table).unwrap();
    assert_eq!(picked, vec![record("a", "s", 1), record("b", "s", 2), record("a", "s", 1)]);
}

#[test]
fn first_of_two_rows_with_one_key_is_the_one_looked_up() {
    let table = vec![
        ("a".to_string(), record("first", "s", 1)),
        ("a".to_string(), record("second", "s", 2)),
    ];
    let picked = pick_items(&strings(&["a", "a"]), &table).unwrap();
    assert_eq!(picked, vec![record("first", "s", 1), record("first", "s", 1)]);
}

#[test]
fn urls_are_attached_by_sale_key() {
    let records = vec![record("a", "s", 1), record("b", "r", 2)];
    let urls = vec![
        ("r2".to_string(), "https://r2".to_string()),
        ("s1".to_string(), "https://s1".to_string()),
        ("s3".to_string(), "https://s3".to_string()),
    ];
    assert_eq!(
        attach_download_urls(&records, &urls).unwrap(),
        vec![made("a", "https://s1"), made("b", "https://r2")]
    );
    assert_eq!(attach_download_urls(&vec![], &vec![]).unwrap(), vec![]);
    assert!(matches!(
        attach_download_urls(&records, &vec![("s1".to_string(), "u".to_string())]),
        Err(ParsePageError::MissingRedownloadUrl(key)) if key == "r2"
    ));
    assert!(matches!(
        attach_download_urls(&records, &vec![]),
        Err(ParsePageError::MissingRedownloadUrl(key)) if key == "s1"
    ));
}

#[test]
fn items_of_one_sale_share_its_address() {
    let twice = vec![record("a", "s", 1), record("b", "s", 1), record("c", "s", 2)];
    let urls = vec![
        ("s1".to_string(), "https://one".to_string()),
        ("s2".to_string(), "https://two".to_string()),
    ];
    assert_eq!(
        attach_download_urls(&twice, &urls).unwrap(),
        vec![made("a", "https://one"), made("b", "https://one"), made("c", "https://two")]
    );
    assert_eq!(urls.len(), 2);
}

#[test]
fn collection_is_assembled_from_its_tables() {
    let table = vec![
        ("k1".to_string(), record("one", "s", 1)),
        ("k2".to_string(), record("two", "s", 2)),
    ];
    let urls = vec![
        ("s1".to_string(), "https://1".to_string()),
        ("s2".to_string(), "https://2".to_string()),
    ];
    assert_eq!(
        assemble_collection(&strings(&["k2", "k1"]), &table, &urls).unwrap(),
        vec![made("two", "https://2"), made("one", "https://1")]
    );
    assert!(matches!(
        assemble_collection(&strings(&["k3"]), &table, &urls),
        Err(ParsePageError::MissingItem(key)) if key == "k3"
    ));
    assert!(matches!(
        assemble_collection(&strings(&["k1"]), &table, &vec![]),
        Err(ParsePageError::MissingRedownloadUrl(key)) if key == "s1"
    ));
}

#[test]
fn a_table_holds_each_key_once() {
    assert_eq!(
        read_text_table(&value("{\"k\":\"first\",\"l\":\"x\",\"k\":\"second\"}")),
        Some(vec![("k".to_string(), "second".to_string()), ("l".to_string(), "x".to_string())])
    );
}
