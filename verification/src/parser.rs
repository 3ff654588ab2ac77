//! Reads the service's pages: the home page, the collection page, the
//! batches that follow it, and the download page of an item.

use crate::error::{PageFault, ParsePageError};
use crate::html::{first_attribute, html_attribute};
use crate::join::{assemble_collection, attach_download_urls, attach_urls, joined};
use crate::json::{
    bool_of, dot_path_target, elements_of, json_document, json_dot_get, json_from_str, json_tree,
    text_of, unsigned_of, JsonTree, PathFault, PathFaultView,
};
use crate::records::{
    list_view, option_list, read_option_list, read_record_list, read_record_table, read_text,
    read_text_list, read_text_table, record_list, record_table, text_list, text_table,
    DownloadOption, DownloadOptionView,
};
use crate::types::{CollectionItem, CollectionItemView};
use vstd::prelude::*;

verus! {

/// The link to the collection, on the home page.
pub const COLLECTION_LINK_SELECTOR: &'static str = "li#collection-main > a";

/// The attribute that holds the address of a link.
pub const LINK_ATTRIBUTE: &'static str = "href";

/// The element that carries a page's data block.
pub const PAGE_DATA_SELECTOR: &'static str = "div#pagedata";

/// The attribute that holds a page's data block.
pub const PAGE_DATA_ATTRIBUTE: &'static str = "data-blob";

/// Where a home page names the account.
pub const USERNAME_PATH: &'static str = "identities.fan.username";

/// Where a collection page holds its item records, by key.
pub const ITEM_CACHE_PATH: &'static str = "item_cache.collection";

/// Where a collection page holds the download addresses, by sale.
pub const REDOWNLOAD_URLS_PATH: &'static str = "collection_data.redownload_urls";

/// Where a collection page holds the keys of its items, in order.
pub const SEQUENCE_PATH: &'static str = "collection_data.sequence";

/// Where a collection page holds the number of the account.
pub const FAN_ID_PATH: &'static str = "fan_data.fan_id";

/// Where a collection page holds the token of the next batch.
pub const LAST_TOKEN_PATH: &'static str = "collection_data.last_token";

/// Where a batch holds its item records, in order.
pub const BATCH_ITEMS_PATH: &'static str = "items";

/// Where a batch holds the token of the next batch.
pub const BATCH_LAST_TOKEN_PATH: &'static str = "last_token";

/// Where a batch says whether more are left.
pub const BATCH_MORE_AVAILABLE_PATH: &'static str = "more_available";

/// Where a batch holds the download addresses, by sale.
pub const BATCH_REDOWNLOAD_URLS_PATH: &'static str = "redownload_urls";

/// Where a download page holds its digital items.
pub const DIGITAL_ITEMS_PATH: &'static str = "digital_items";

/// Where a download page holds the encodings of its digital item.
pub const DOWNLOADS_PATH: &'static str = "digital_items.0.downloads";

/// What the collection page yields: who owns the collection, where the
/// next batch starts, and the first items.
#[derive(Clone, Debug, PartialEq, Eq)]
pub struct CollectionPageData {
    pub fan_id: u64,
    pub last_token: String,
    pub collection_items: Vec<CollectionItem>,
}

/// The mathematical value of a collection page.
pub struct CollectionPageDataView {
    pub fan_id: u64,
    pub last_token: Seq<char>,
    pub collection_items: Seq<CollectionItemView>,
}

impl View for CollectionPageData {
    type V = CollectionPageDataView;

    open spec fn view(&self) -> CollectionPageDataView {
        CollectionPageDataView {
            fan_id: self.fan_id,
            last_token: self.last_token@,
            collection_items: list_view(self.collection_items@),
        }
    }
}

/// One batch of the collection: its items, where the next batch starts, and
/// whether there is one.
#[derive(Clone, Debug, PartialEq, Eq)]
pub struct CollectionJSON {
    pub more_available: bool,
    pub last_token: String,
    pub collection_items: Vec<CollectionItem>,
}

/// The mathematical value of a batch.
pub struct CollectionJSONView {
    pub more_available: bool,
    pub last_token: Seq<char>,
    pub collection_items: Seq<CollectionItemView>,
}

impl View for CollectionJSON {
    type V = CollectionJSONView;

    open spec fn view(&self) -> CollectionJSONView {
        CollectionJSONView {
            more_available: self.more_available,
            last_token: self.last_token@,
            collection_items: list_view(self.collection_items@),
        }
    }
}

/// The value at a path that must lead somewhere.
pub open spec fn at_path(tree: JsonTree, path: Seq<char>) -> Result<JsonTree, PageFault> {
    match dot_path_target(tree, path) {
        Ok(Some(found)) => Ok(found),
        Ok(None) => Err(PageFault::InvalidJSON(path, PathFaultView::BadPathElement)),
        Err(fault) => Err(PageFault::InvalidJSON(path, fault)),
    }
}

/// What was read from the value at a path, a fault where it has another
/// shape.
pub open spec fn shaped<T>(path: Seq<char>, found: Result<JsonTree, PageFault>, read: spec_fn(JsonTree) -> Option<T>) -> Result<
    T,
    PageFault,
> {
    match found {
        Ok(tree) => match read(tree) {
            Some(value) => Ok(value),
            None => Err(PageFault::InvalidJSON(path, PathFaultView::WrongShape)),
        },
        Err(fault) => Err(fault),
    }
}

/// What a typed value at a path is.
pub open spec fn typed_at<T>(tree: JsonTree, path: Seq<char>, read: spec_fn(JsonTree) -> Option<T>) -> Result<
    T,
    PageFault,
> {
    shaped(path, at_path(tree, path), read)
}

/// The data block of a page.
pub open spec fn page_blob(html: Seq<char>) -> Result<JsonTree, PageFault> {
    match html_attribute(html, PAGE_DATA_SELECTOR@, PAGE_DATA_ATTRIBUTE@) {
        None => Err(PageFault::PageDataNotFound),
        Some(blob) => match json_document(blob) {
            None => Err(PageFault::PageDataNotJSON),
            Some(tree) => Ok(tree),
        },
    }
}

/// The name of the account in a home page's data block.
pub open spec fn username_in(tree: JsonTree) -> Result<Seq<char>, PageFault> {
    typed_at(tree, USERNAME_PATH@, |t: JsonTree| text_of(t))
}

/// The name of the account and the address of its collection.
pub open spec fn home_page(html: Seq<char>) -> Result<(Seq<char>, Seq<char>), PageFault> {
    match html_attribute(html, COLLECTION_LINK_SELECTOR@, LINK_ATTRIBUTE@) {
        None => Err(PageFault::NoHtmlElement(COLLECTION_LINK_SELECTOR@)),
        Some(link) => match page_blob(html) {
            Err(fault) => Err(fault),
            Ok(tree) => match username_in(tree) {
                Err(fault) => Err(fault),
                Ok(username) => Ok((username, link)),
            },
        },
    }
}

/// The collection that a collection page's data block holds.
pub open spec fn collection_in(tree: JsonTree) -> Result<CollectionPageDataView, PageFault> {
    let table = typed_at(tree, ITEM_CACHE_PATH@, |t: JsonTree| record_table(t));
    let urls = typed_at(tree, REDOWNLOAD_URLS_PATH@, |t: JsonTree| text_table(t));
    let sequence = typed_at(tree, SEQUENCE_PATH@, |t: JsonTree| text_list(t));
    let fan_id = typed_at(tree, FAN_ID_PATH@, |t: JsonTree| unsigned_of(t));
    let last_token = typed_at(tree, LAST_TOKEN_PATH@, |t: JsonTree| text_of(t));
    if table is Err {
        Err(table->Err_0)
    } else if urls is Err {
        Err(urls->Err_0)
    } else if sequence is Err {
        Err(sequence->Err_0)
    } else if fan_id is Err {
        Err(fan_id->Err_0)
    } else if last_token is Err {
        Err(last_token->Err_0)
    } else {
        match joined(sequence->Ok_0, table->Ok_0, urls->Ok_0) {
            Err(fault) => Err(fault),
            Ok(items) => Ok(
                CollectionPageDataView {
                    fan_id: fan_id->Ok_0,
                    last_token: last_token->Ok_0,
                    collection_items: items,
                },
            ),
        }
    }
}

/// What a collection page yields.
pub open spec fn collection_page(html: Seq<char>) -> Result<CollectionPageDataView, PageFault> {
    match page_blob(html) {
        Err(fault) => Err(fault),
        Ok(tree) => collection_in(tree),
    }
}

/// The batch that a document holds.
pub open spec fn batch_in(tree: JsonTree) -> Result<CollectionJSONView, PageFault> {
    let records = typed_at(tree, BATCH_ITEMS_PATH@, |t: JsonTree| record_list(t));
    let last_token = typed_at(tree, BATCH_LAST_TOKEN_PATH@, |t: JsonTree| text_of(t));
    let more_available = typed_at(tree, BATCH_MORE_AVAILABLE_PATH@, |t: JsonTree| bool_of(t));
    let urls = typed_at(tree, BATCH_REDOWNLOAD_URLS_PATH@, |t: JsonTree| text_table(t));
    if records is Err {
        Err(records->Err_0)
    } else if last_token is Err {
        Err(last_token->Err_0)
    } else if more_available is Err {
        Err(more_available->Err_0)
    } else if urls is Err {
        Err(urls->Err_0)
    } else {
        match attach_urls(records->Ok_0, urls->Ok_0) {
            Err(fault) => Err(fault),
            Ok(items) => Ok(
                CollectionJSONView {
                    more_available: more_available->Ok_0,
                    last_token: last_token->Ok_0,
                    collection_items: items,
                },
            ),
        }
    }
}

/// What a batch of the collection yields.
pub open spec fn collection_batch(data: Seq<char>) -> Result<CollectionJSONView, PageFault> {
    match json_document(data) {
        None => Err(PageFault::PageDataNotJSON),
        Some(tree) => batch_in(tree),
    }
}

/// The download options that a download page's data block holds: those of
/// its digital item, of which there must be exactly one.
pub open spec fn downloads_in(tree: JsonTree) -> Result<Seq<DownloadOptionView>, PageFault> {
    match typed_at(tree, DIGITAL_ITEMS_PATH@, |t: JsonTree| elements_of(t)) {
        Err(fault) => Err(fault),
        Ok(items) => if items.len() != 1 {
            Err(PageFault::UnexpectedDownloadDigitalItemCount(items.len() as usize))
        } else {
            typed_at(tree, DOWNLOADS_PATH@, |t: JsonTree| option_list(t))
        },
    }
}

/// What a download page yields.
pub open spec fn download_page(html: Seq<char>) -> Result<Seq<DownloadOptionView>, PageFault> {
    match page_blob(html) {
        Err(fault) => Err(fault),
        Ok(tree) => downloads_in(tree),
    }
}

/// Follows a dotted path that must lead somewhere: a copy of the value that
/// it reaches, and a fault where it reaches nothing or cannot be followed.
pub fn value_at(value: &serde_json::Value, path: &'static str) -> (r: Result<
    serde_json::Value,
    ParsePageError,
>)
    ensures
        match r {
            Ok(found) => at_path(json_tree(*value), path@) == Ok::<JsonTree, PageFault>(
                json_tree(found),
            ),
            Err(fault) => at_path(json_tree(*value), path@) == Err::<JsonTree, PageFault>(fault@),
        },
{
    match json_dot_get(value, path) {
        Ok(Some(found)) => Ok(found),
        Ok(None) => Err(ParsePageError::InvalidJSON(path, PathFault::BadPathElement)),
        Err(fault) => Err(ParsePageError::InvalidJSON(path, fault)),
    }
}

/// The fault of a value that has another shape than expected.
fn wrong_shape(path: &'static str) -> (fault: ParsePageError)
    ensures
        fault@ == PageFault::InvalidJSON(path@, PathFaultView::WrongShape),
{
    ParsePageError::InvalidJSON(path, PathFault::WrongShape)
}

/// Reads the data block of a page.
pub fn parse_data_blob(html: &str) -> (r: Result<serde_json::Value, ParsePageError>)
    ensures
        match r {
            Ok(value) => page_blob(html@) == Ok::<JsonTree, PageFault>(json_tree(value)),
            Err(fault) => page_blob(html@) == Err::<JsonTree, PageFault>(fault@),
        },
{
    let blob = match first_attribute(html, PAGE_DATA_SELECTOR, PAGE_DATA_ATTRIBUTE) {
        Some(blob) => blob,
        None => {
            return Err(ParsePageError::PageDataNotFound);
        },
    };
    match json_from_str(blob.as_str()) {
        Ok(value) => Ok(value),
        Err(fault) => Err(ParsePageError::PageDataNotJSON(fault)),
    }
}

/// Reads the name of the account from a home page's data block.
pub fn username_from(value: &serde_json::Value) -> (r: Result<String, ParsePageError>)
    ensures
        match r {
            Ok(username) => username_in(json_tree(*value)) == Ok::<Seq<char>, PageFault>(
                username@,
            ),
            Err(fault) => username_in(json_tree(*value)) == Err::<Seq<char>, PageFault>(fault@),
        },
{
    let found = match value_at(value, USERNAME_PATH) {
        Ok(found) => found,
        Err(fault) => {
            return Err(fault);
        },
    };
    match read_text(&found) {
        Some(username) => Ok(username),
        None => Err(wrong_shape(USERNAME_PATH)),
    }
}

/// Reads the home page: the name of the account and the address of its
/// collection.
pub fn parse_home_page(html: &str) -> (r: Result<(String, String), ParsePageError>)
    ensures
        match r {
            Ok((username, link)) => home_page(html@) == Ok::<(Seq<char>, Seq<char>), PageFault>(
                (username@, link@),
            ),
            Err(fault) => home_page(html@) == Err::<(Seq<char>, Seq<char>), PageFault>(fault@),
        },
{
    let link = match first_attribute(html, COLLECTION_LINK_SELECTOR, LINK_ATTRIBUTE) {
        Some(link) => link,
        None => {
            return Err(ParsePageError::NoHtmlElement(COLLECTION_LINK_SELECTOR));
        },
    };
    let value = match parse_data_blob(html) {
        Ok(value) => value,
        Err(fault) => {
            return Err(fault);
        },
    };
    match username_from(&value) {
        Ok(username) => Ok((username, link)),
        Err(fault) => Err(fault),
    }
}

/// Reads the collection from a collection page's data block.
pub fn collection_from(value: &serde_json::Value) -> (r: Result<CollectionPageData, ParsePageError>)
    ensures
        match r {
            Ok(page) => collection_in(json_tree(*value)) == Ok::<
                CollectionPageDataView,
                PageFault,
            >(page@),
            Err(fault) => collection_in(json_tree(*value)) == Err::<
                CollectionPageDataView,
                PageFault,
            >(fault@),
        },
{
    let table = match value_at(value, ITEM_CACHE_PATH) {
        Ok(found) => match read_record_table(&found) {
            Some(table) => table,
            None => {
                return Err(wrong_shape(ITEM_CACHE_PATH));
            },
        },
        Err(fault) => {
            return Err(fault);
        },
    };
    let urls = match value_at(value, REDOWNLOAD_URLS_PATH) {
        Ok(found) => match read_text_table(&found) {
            Some(urls) => urls,
            None => {
                return Err(wrong_shape(REDOWNLOAD_URLS_PATH));
            },
        },
        Err(fault) => {
            return Err(fault);
        },
    };
    let sequence = match value_at(value, SEQUENCE_PATH) {
        Ok(found) => match read_text_list(&found) {
            Some(sequence) => sequence,
            None => {
                return Err(wrong_shape(SEQUENCE_PATH));
            },
        },
        Err(fault) => {
            return Err(fault);
        },
    };
    let fan_id = match value_at(value, FAN_ID_PATH) {
        Ok(found) => match found.as_u64() {
            Some(fan_id) => fan_id,
            None => {
                return Err(wrong_shape(FAN_ID_PATH));
            },
        },
        Err(fault) => {
            return Err(fault);
        },
    };
    let last_token = match value_at(value, LAST_TOKEN_PATH) {
        Ok(found) => match read_text(&found) {
            Some(last_token) => last_token,
            None => {
                return Err(wrong_shape(LAST_TOKEN_PATH));
            },
        },
        Err(fault) => {
            return Err(fault);
        },
    };
    match assemble_collection(&sequence, &table, &urls) {
        Ok(collection_items) => Ok(CollectionPageData { fan_id, last_token, collection_items }),
        Err(fault) => Err(fault),
    }
}

/// Reads the collection page: the owner, the token of the next batch, and
/// the first items, in the order of the page's sequence list.
pub fn parse_collection_page(html: &str) -> (r: Result<CollectionPageData, ParsePageError>)
    ensures
        match r {
            Ok(page) => collection_page(html@) == Ok::<CollectionPageDataView, PageFault>(page@),
            Err(fault) => collection_page(html@) == Err::<CollectionPageDataView, PageFault>(
                fault@,
            ),
        },
{
    match parse_data_blob(html) {
        Ok(value) => collection_from(&value),
        Err(fault) => Err(fault),
    }
}

/// Reads a batch from its document.
pub fn batch_from(value: &serde_json::Value) -> (r: Result<CollectionJSON, ParsePageError>)
    ensures
        match r {
            Ok(batch) => batch_in(json_tree(*value)) == Ok::<CollectionJSONView, PageFault>(
                batch@,
            ),
            Err(fault) => batch_in(json_tree(*value)) == Err::<CollectionJSONView, PageFault>(
                fault@,
            ),
        },
{
    let records = match value_at(value, BATCH_ITEMS_PATH) {
        Ok(found) => match read_record_list(&found) {
            Some(records) => records,
            None => {
                return Err(wrong_shape(BATCH_ITEMS_PATH));
            },
        },
        Err(fault) => {
            return Err(fault);
        },
    };
    let last_token = match value_at(value, BATCH_LAST_TOKEN_PATH) {
        Ok(found) => match read_text(&found) {
            Some(last_token) => last_token,
            None => {
                return Err(wrong_shape(BATCH_LAST_TOKEN_PATH));
            },
        },
        Err(fault) => {
            return Err(fault);
        },
    };
    let more_available = match value_at(value, BATCH_MORE_AVAILABLE_PATH) {
        Ok(found) => match found.as_bool() {
            Some(more_available) => more_available,
            None => {
                return Err(wrong_shape(BATCH_MORE_AVAILABLE_PATH));
            },
        },
        Err(fault) => {
            return Err(fault);
        },
    };
    let urls = match value_at(value, BATCH_REDOWNLOAD_URLS_PATH) {
        Ok(found) => match read_text_table(&found) {
            Some(urls) => urls,
            None => {
                return Err(wrong_shape(BATCH_REDOWNLOAD_URLS_PATH));
            },
        },
        Err(fault) => {
            return Err(fault);
        },
    };
    match attach_download_urls(&records, &urls) {
        Ok(collection_items) => Ok(CollectionJSON { more_available, last_token, collection_items }),
        Err(fault) => Err(fault),
    }
}

/// Reads one batch of the collection: its items in the order of the
/// document, the token of the next batch, and whether there is one.
pub fn parse_collection_json(data: &str) -> (r: Result<CollectionJSON, ParsePageError>)
    ensures
        match r {
            Ok(batch) => collection_batch(data@) == Ok::<CollectionJSONView, PageFault>(batch@),
            Err(fault) => collection_batch(data@) == Err::<CollectionJSONView, PageFault>(fault@),
        },
{
    match json_from_str(data) {
        Ok(value) => batch_from(&value),
        Err(fault) => Err(ParsePageError::PageDataNotJSON(fault)),
    }
}

/// Reads the download options from a download page's data block.
pub fn downloads_from(value: &serde_json::Value) -> (r: Result<Vec<DownloadOption>, ParsePageError>)
    ensures
        match r {
            Ok(options) => downloads_in(json_tree(*value)) == Ok::<
                Seq<DownloadOptionView>,
                PageFault,
            >(list_view(options@)),
            Err(fault) => downloads_in(json_tree(*value)) == Err::<
                Seq<DownloadOptionView>,
                PageFault,
            >(fault@),
        },
{
    let digital_items = match value_at(value, DIGITAL_ITEMS_PATH) {
        Ok(found) => found,
        Err(fault) => {
            return Err(fault);
        },
    };
    let count = match digital_items.as_array() {
        Some(items) => items.len(),
        None => {
            return Err(wrong_shape(DIGITAL_ITEMS_PATH));
        },
    };
    if count != 1 {
        return Err(ParsePageError::UnexpectedDownloadDigitalItemCount(count));
    }
    match value_at(value, DOWNLOADS_PATH) {
        Ok(found) => match read_option_list(&found) {
            Some(options) => Ok(options),
            None => Err(wrong_shape(DOWNLOADS_PATH)),
        },
        Err(fault) => Err(fault),
    }
}

/// Reads the download page of an item: the encodings in which its one
/// digital item can be fetched.
pub fn parse_download_page(html: &str) -> (r: Result<Vec<DownloadOption>, ParsePageError>)
    ensures
        match r {
            Ok(options) => download_page(html@) == Ok::<Seq<DownloadOptionView>, PageFault>(
                list_view(options@),
            ),
            Err(fault) => download_page(html@) == Err::<Seq<DownloadOptionView>, PageFault>(
                fault@,
            ),
        },
{
    match parse_data_blob(html) {
        Ok(value) => downloads_from(&value),
        Err(fault) => Err(fault),
    }
}

} // verus!
