use bandcamper::parser::{CollectionJSON, CollectionPageData};
use bandcamper::sync::{CollectionItemsRequestBody, Synchronizer, PAGE_SIZE};
use bandcamper::types::{CollectionItem, CollectionItemKind};

fn item(title: &str) -> CollectionItem {
    CollectionItem {
        itype: CollectionItemKind::Album,
        title: title.to_string(),
        artist: "artist".to_string(),
        download_url: format!("https://x/{}", title),
    }
}

fn first_page(titles: &[&str]) -> CollectionPageData {
    CollectionPageData {
        fan_id: 77,
        last_token: "t0".to_string(),
        collection_items: titles.iter().map(|title| item(title)).collect(),
    }
}

fn batch(titles: &[&str], token: &str, more: bool) -> CollectionJSON {
    CollectionJSON {
        more_available: more,
        last_token: token.to_string(),
        collection_items: titles.iter().map(|title| item(title)).collect(),
    }
}

fn request(token: &str) -> CollectionItemsRequestBody {
    CollectionItemsRequestBody { fan_id: 77, older_than_token: token.to_string(), count: 20 }
}

#[test]
fn page_size_is_twenty() {
    assert_eq!(PAGE_SIZE, 20);
}

#[test]
fn bootstrap_asks_for_the_first_batch() {
    let sync = Synchronizer::new();
    assert!(!sync.is_done());
    let (sync, asked) = sync.bootstrap(first_page(&["a", "b"]));
    assert_eq!(asked, Some(request("t0")));
    assert!(!sync.is_done());
    assert_eq!(sync.into_items(), vec![item("a"), item("b")]);
}

#[test]
fn pagination_merges_all_pages_and_stops_at_the_last() {
    let pages = vec![
        batch(&["c", "d", "e"], "t1", true),
        batch(&[], "t2", true),
        batch(&["f"], "t3", false),
    ];
    let total: usize = 2 + pages.iter().map(|page| page.collection_items.len()).sum::<usize>();
    let (mut sync, mut asked) = Synchronizer::new().bootstrap(first_page(&["a", "b"]));
    let mut requests = Vec::new();
    let mut served = 0;
    for page in pages {
        let body = asked.expect("a request for each page");
        requests.push(body);
        served += 1;
        let next = sync.accept(page);
        sync = next.0;
        asked = next.1;
    }
    assert_eq!(asked, None);
    assert!(sync.is_done());
    assert_eq!(served, 3);
    assert_eq!(requests, vec![request("t0"), request("t1"), request("t2")]);
    let items = sync.into_items();
    assert_eq!(items.len(), total);
    assert_eq!(
        items,
        vec![item("a"), item("b"), item("c"), item("d"), item("e"), item("f")]
    );
}

#[test]
fn nothing_is_asked_for_after_the_last_page() {
    let (sync, _) = Synchronizer::new().bootstrap(first_page(&["a"]));
    let (sync, asked) = sync.accept(batch(&["b"], "t1", false));
    assert_eq!(asked, None);
    let (sync, asked) = sync.accept(batch(&["c"], "t2", true));
    assert_eq!(asked, None);
    assert!(sync.is_done());
    let (sync, asked) = sync.bootstrap(first_page(&["z"]));
    assert_eq!(asked, None);
    assert_eq!(sync.into_items(), vec![item("a"), item("b")]);
}

#[test]
fn a_batch_before_the_collection_page_is_left_aside() {
    let (sync, asked) = Synchronizer::new().accept(batch(&["b"], "t1", true));
    assert_eq!(asked, None);
    assert!(!sync.is_done());
    let (sync, asked) = sync.bootstrap(first_page(&[]));
    assert_eq!(asked, Some(request("t0")));
    assert_eq!(sync.into_items(), vec![]);
}

#[test]
fn a_second_collection_page_is_left_aside() {
    let (sync, _) = Synchronizer::new().bootstrap(first_page(&["a"]));
    let (sync, asked) = sync.bootstrap(first_page(&["z"]));
    assert_eq!(asked, None);
    assert_eq!(sync.into_items(), vec![item("a")]);
}
