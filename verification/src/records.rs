//! The records that the service's JSON documents hold, read field by field.

use crate::json::{
    distinct_keys, element_trees, elements_of, json_members, json_tree, member_trees, members_of,
    text_of, unsigned_of, JsonTree,
};
use crate::size::{parse_size, size_in_bytes};
use crate::text::same_text;
use crate::types::{wire_name, CollectionItemKind, Encoding};
use vstd::prelude::*;
use vstd::string::StringExecFns;

verus! {

/// The members of an object: each key with its value.
pub type Members = Seq<(Seq<char>, JsonTree)>;

/// One item as the service's documents describe it.
#[derive(Clone, Debug, PartialEq, Eq)]
pub struct ItemCacheCollectionItem {
    pub title: String,
    pub artist: String,
    pub tralbum_type: String,
    pub tralbum_id: u64,
    pub item_type: CollectionItemKind,
    pub item_id: u64,
    pub sale_item_id: u64,
    pub sale_item_type: String,
}

/// The mathematical value of an item record.
pub struct ItemRecord {
    pub title: Seq<char>,
    pub artist: Seq<char>,
    pub tralbum_type: Seq<char>,
    pub tralbum_id: u64,
    pub item_type: CollectionItemKind,
    pub item_id: u64,
    pub sale_item_id: u64,
    pub sale_item_type: Seq<char>,
}

impl View for ItemCacheCollectionItem {
    type V = ItemRecord;

    open spec fn view(&self) -> ItemRecord {
        ItemRecord {
            title: self.title@,
            artist: self.artist@,
            tralbum_type: self.tralbum_type@,
            tralbum_id: self.tralbum_id,
            item_type: self.item_type,
            item_id: self.item_id,
            sale_item_id: self.sale_item_id,
            sale_item_type: self.sale_item_type@,
        }
    }
}

/// One encoding in which an item can be fetched.
#[derive(Clone, Debug, PartialEq, Eq)]
pub struct DownloadOption {
    pub encoding: Encoding,
    pub approximate_size: u64,
    pub url: String,
}

/// The mathematical value of a download option.
pub struct DownloadOptionView {
    pub encoding: Encoding,
    pub approximate_size: u64,
    pub url: Seq<char>,
}

impl View for DownloadOption {
    type V = DownloadOptionView;

    open spec fn view(&self) -> DownloadOptionView {
        DownloadOptionView {
            encoding: self.encoding,
            approximate_size: self.approximate_size,
            url: self.url@,
        }
    }
}

/// Whether member `i` goes by one of two names.
pub open spec fn is_named(members: Members, i: int, name: Seq<char>, alias: Seq<char>) -> bool {
    0 <= i < members.len() && (members[i].0 == name || members[i].0 == alias)
}

/// Whether member `i` is the only one that goes by one of two names.
pub open spec fn only_at(members: Members, i: int, name: Seq<char>, alias: Seq<char>) -> bool {
    is_named(members, i, name, alias) && forall|j: int|
        is_named(members, j, name, alias) ==> j == i
}

/// The value of the field that goes by `name` or by `alias`. `None` where no
/// member does, and where more than one does.
pub open spec fn field(members: Members, name: Seq<char>, alias: Seq<char>) -> Option<JsonTree> {
    if exists|i: int| only_at(members, i, name, alias) {
        Some(members[choose|i: int| only_at(members, i, name, alias)].1)
    } else {
        None
    }
}

/// The text of the field that goes by one of two names.
pub open spec fn text_field(members: Members, name: Seq<char>, alias: Seq<char>) -> Option<
    Seq<char>,
> {
    match field(members, name, alias) {
        Some(tree) => text_of(tree),
        None => None,
    }
}

/// The number of the field of a name.
pub open spec fn unsigned_field(members: Members, name: Seq<char>) -> Option<u64> {
    match field(members, name, name) {
        Some(tree) => unsigned_of(tree),
        None => None,
    }
}

/// The kind that a text names, in either spelling.
pub open spec fn kind_named(text: Seq<char>) -> Option<CollectionItemKind> {
    if text == "album"@ || text == "Album"@ {
        Some(CollectionItemKind::Album)
    } else if text == "track"@ || text == "Track"@ {
        Some(CollectionItemKind::Track)
    } else {
        None
    }
}

/// The kind that the field of a name holds.
pub open spec fn kind_field(members: Members, name: Seq<char>) -> Option<CollectionItemKind> {
    match text_field(members, name, name) {
        Some(text) => kind_named(text),
        None => None,
    }
}

/// The encoding that the service lists under a name.
pub open spec fn encoding_named(text: Seq<char>) -> Option<Encoding> {
    if text == "aac-hi"@ {
        Some(Encoding::Aac)
    } else if text == "aiff-lossless"@ {
        Some(Encoding::Aiff)
    } else if text == "alac"@ {
        Some(Encoding::Alac)
    } else if text == "flac"@ {
        Some(Encoding::Flac)
    } else if text == "mp3-320"@ {
        Some(Encoding::MP3320)
    } else if text == "mp3-v0"@ {
        Some(Encoding::MP3V0)
    } else if text == "vorbis"@ {
        Some(Encoding::Ogg)
    } else if text == "wav"@ {
        Some(Encoding::Wav)
    } else {
        None
    }
}

/// Every encoding is read back from the name under which the service lists
/// it: no two encodings share a name.
pub proof fn lemma_encoding_names(encoding: Encoding)
    ensures
        encoding_named(wire_name(encoding)) == Some(encoding),
{
    reveal_strlit("aac-hi");
    reveal_strlit("aiff-lossless");
    reveal_strlit("alac");
    reveal_strlit("flac");
    reveal_strlit("mp3-320");
    reveal_strlit("mp3-v0");
    reveal_strlit("vorbis");
    reveal_strlit("wav");
    assert("aac-hi"@.len() == 6 && "aiff-lossless"@.len() == 13 && "alac"@.len() == 4);
    assert("flac"@.len() == 4 && "mp3-320"@.len() == 7 && "mp3-v0"@.len() == 6);
    assert("vorbis"@.len() == 6 && "wav"@.len() == 3);
    assert("aac-hi"@[0] == 'a' && "mp3-v0"@[0] == 'm' && "vorbis"@[0] == 'v');
    assert("alac"@[0] == 'a' && "flac"@[0] == 'f');
}

/// The record that an object holds: each of the eight fields once, under
/// its name or its other name, with a value of its type. Members of other
/// names do not count.
pub open spec fn item_record(tree: JsonTree) -> Option<ItemRecord> {
    match members_of(tree) {
        None => None,
        Some(members) => {
            let title = text_field(members, "title"@, "item_title"@);
            let artist = text_field(members, "artist"@, "band_name"@);
            let tralbum_type = text_field(members, "tralbum_type"@, "tralbum_type"@);
            let tralbum_id = unsigned_field(members, "tralbum_id"@);
            let item_type = kind_field(members, "item_type"@);
            let item_id = unsigned_field(members, "item_id"@);
            let sale_item_id = unsigned_field(members, "sale_item_id"@);
            let sale_item_type = text_field(members, "sale_item_type"@, "sale_item_type"@);
            if title is Some && artist is Some && tralbum_type is Some && tralbum_id is Some
                && item_type is Some && item_id is Some && sale_item_id is Some
                && sale_item_type is Some {
                Some(
                    ItemRecord {
                        title: title->0,
                        artist: artist->0,
                        tralbum_type: tralbum_type->0,
                        tralbum_id: tralbum_id->0,
                        item_type: item_type->0,
                        item_id: item_id->0,
                        sale_item_id: sale_item_id->0,
                        sale_item_type: sale_item_type->0,
                    },
                )
            } else {
                None
            }
        },
    }
}

/// The download option that an object holds: an encoding under its listed
/// name, a size as text, and an address.
pub open spec fn download_option(tree: JsonTree) -> Option<DownloadOptionView> {
    match members_of(tree) {
        None => None,
        Some(members) => {
            let encoding = match text_field(members, "encoding"@, "encoding_name"@) {
                Some(text) => encoding_named(text),
                None => None,
            };
            let size = match text_field(members, "approximate_size"@, "size_mb"@) {
                Some(text) => match size_in_bytes(text) {
                    Ok(bytes) => Some(bytes),
                    Err(_) => None,
                },
                None => None,
            };
            let url = text_field(members, "url"@, "url"@);
            if encoding is Some && size is Some && url is Some {
                Some(
                    DownloadOptionView {
                        encoding: encoding->0,
                        approximate_size: size->0,
                        url: url->0,
                    },
                )
            } else {
                None
            }
        },
    }
}

/// The texts that a row of string values holds; `None` where one of them is
/// no string.
pub open spec fn texts_of(trees: Seq<JsonTree>) -> Option<Seq<Seq<char>>> {
    if forall|i: int| 0 <= i < trees.len() ==> text_of(#[trigger] trees[i]) is Some {
        Some(Seq::new(trees.len(), |i: int| text_of(trees[i])->0))
    } else {
        None
    }
}

/// The records that a row of objects holds; `None` where one of them holds
/// none.
pub open spec fn records_of(trees: Seq<JsonTree>) -> Option<Seq<ItemRecord>> {
    if forall|i: int| 0 <= i < trees.len() ==> item_record(#[trigger] trees[i]) is Some {
        Some(Seq::new(trees.len(), |i: int| item_record(trees[i])->0))
    } else {
        None
    }
}

/// The download options that a row of objects holds; `None` where one of
/// them holds none.
pub open spec fn options_of(trees: Seq<JsonTree>) -> Option<Seq<DownloadOptionView>> {
    if forall|i: int| 0 <= i < trees.len() ==> download_option(#[trigger] trees[i]) is Some {
        Some(Seq::new(trees.len(), |i: int| download_option(trees[i])->0))
    } else {
        None
    }
}

/// The values of an object's members, in order.
pub open spec fn member_values(members: Members) -> Seq<JsonTree> {
    Seq::new(members.len(), |i: int| members[i].1)
}

/// Each key of an object with what was read from its value.
pub open spec fn keyed<T>(members: Members, values: Seq<T>) -> Seq<(Seq<char>, T)> {
    Seq::new(members.len(), |i: int| (members[i].0, values[i]))
}

/// A list of strings.
pub open spec fn text_list(tree: JsonTree) -> Option<Seq<Seq<char>>> {
    match elements_of(tree) {
        Some(items) => texts_of(items),
        None => None,
    }
}

/// A list of item records.
pub open spec fn record_list(tree: JsonTree) -> Option<Seq<ItemRecord>> {
    match elements_of(tree) {
        Some(items) => records_of(items),
        None => None,
    }
}

/// An object whose every value is a string.
pub open spec fn text_table(tree: JsonTree) -> Option<Seq<(Seq<char>, Seq<char>)>> {
    match members_of(tree) {
        Some(members) => match texts_of(member_values(members)) {
            Some(texts) => Some(keyed(members, texts)),
            None => None,
        },
        None => None,
    }
}

/// An object whose every value is an item record.
pub open spec fn record_table(tree: JsonTree) -> Option<Seq<(Seq<char>, ItemRecord)>> {
    match members_of(tree) {
        Some(members) => match records_of(member_values(members)) {
            Some(records) => Some(keyed(members, records)),
            None => None,
        },
        None => None,
    }
}

/// The download options that are the values of an object, in the order of
/// its members.
pub open spec fn option_list(tree: JsonTree) -> Option<Seq<DownloadOptionView>> {
    match members_of(tree) {
        Some(members) => options_of(member_values(members)),
        None => None,
    }
}

/// The views of a table's rows.
pub open spec fn table_view<T: View>(rows: Seq<(String, T)>) -> Seq<(Seq<char>, T::V)> {
    Seq::new(rows.len(), |i: int| (rows[i].0@, rows[i].1@))
}

/// The views of a list's items.
pub open spec fn list_view<T: View>(items: Seq<T>) -> Seq<T::V> {
    Seq::new(items.len(), |i: int| items[i]@)
}

/// Looks up the only member that goes by one of two names.
fn find_field<'a>(
    members: &Vec<(&'a str, &'a serde_json::Value)>,
    name: &str,
    alias: &str,
) -> (found: Option<&'a serde_json::Value>)
    ensures
        match found {
            Some(value) => field(member_trees(members@), name@, alias@) == Some(json_tree(*value)),
            None => field(member_trees(members@), name@, alias@) is None,
        },
{
    let ghost model = member_trees(members@);
    let ghost mut at: int = -1;
    let mut found: Option<&'a serde_json::Value> = None;
    let mut i: usize = 0;
    while i < members.len()
        invariant
            i <= members.len(),
            model == member_trees(members@),
            forall|j: int| 0 <= j < i && is_named(model, j, name@, alias@) ==> j == at,
            match found {
                Some(value) => 0 <= at < i && is_named(model, at, name@, alias@) && json_tree(
                    *value,
                ) == model[at].1,
                None => at == -1,
            },
        decreases members.len() - i,
    {
        let (key, child) = members[i];
        if same_text(key, name) || same_text(key, alias) {
            assert(is_named(model, i as int, name@, alias@));
            if found.is_some() {
                assert forall|k: int| !only_at(model, k, name@, alias@) by {
                    if only_at(model, k, name@, alias@) {
                        assert(is_named(model, at, name@, alias@));
                        assert(is_named(model, i as int, name@, alias@));
                    }
                }
                return None;
            }
            found = Some(child);
            proof {
                at = i as int;
            }
        }
        i += 1;
    }
    proof {
        if found is Some {
            assert(only_at(model, at, name@, alias@));
            let k = choose|k: int| only_at(model, k, name@, alias@);
            assert(is_named(model, at, name@, alias@));
            assert(k == at);
        } else {
            assert forall|k: int| !only_at(model, k, name@, alias@) by {}
        }
    }
    found
}

/// The text of a string value.
pub fn read_text(value: &serde_json::Value) -> (text: Option<String>)
    ensures
        match text {
            Some(s) => text_of(json_tree(*value)) == Some(s@),
            None => text_of(json_tree(*value)) is None,
        },
{
    match value.as_str() {
        Some(s) => Some(String::from_str(s)),
        None => None,
    }
}

/// Reads the text of the field that goes by one of two names.
fn read_text_field(
    members: &Vec<(&str, &serde_json::Value)>,
    name: &str,
    alias: &str,
) -> (text: Option<String>)
    ensures
        match text {
            Some(s) => text_field(member_trees(members@), name@, alias@) == Some(s@),
            None => text_field(member_trees(members@), name@, alias@) is None,
        },
{
    match find_field(members, name, alias) {
        Some(value) => read_text(value),
        None => None,
    }
}

/// Reads the number of the field of a name.
fn read_unsigned_field(members: &Vec<(&str, &serde_json::Value)>, name: &str) -> (number: Option<
    u64,
>)
    ensures
        number == unsigned_field(member_trees(members@), name@),
{
    match find_field(members, name, name) {
        Some(value) => value.as_u64(),
        None => None,
    }
}

/// The kind that a text names: `album` or `track`, with or without a
/// capital.
pub fn kind_from_name(text: &str) -> (kind: Option<CollectionItemKind>)
    ensures
        kind == kind_named(text@),
{
    if same_text(text, "album") || same_text(text, "Album") {
        Some(CollectionItemKind::Album)
    } else if same_text(text, "track") || same_text(text, "Track") {
        Some(CollectionItemKind::Track)
    } else {
        None
    }
}

/// The encoding that the service lists under a name.
pub fn encoding_from_name(text: &str) -> (encoding: Option<Encoding>)
    ensures
        encoding == encoding_named(text@),
{
    if same_text(text, "aac-hi") {
        Some(Encoding::Aac)
    } else if same_text(text, "aiff-lossless") {
        Some(Encoding::Aiff)
    } else if same_text(text, "alac") {
        Some(Encoding::Alac)
    } else if same_text(text, "flac") {
        Some(Encoding::Flac)
    } else if same_text(text, "mp3-320") {
        Some(Encoding::MP3320)
    } else if same_text(text, "mp3-v0") {
        Some(Encoding::MP3V0)
    } else if same_text(text, "vorbis") {
        Some(Encoding::Ogg)
    } else if same_text(text, "wav") {
        Some(Encoding::Wav)
    } else {
        None
    }
}

/// Reads an item record from an object.
pub fn read_item(value: &serde_json::Value) -> (item: Option<ItemCacheCollectionItem>)
    ensures
        match item {
            Some(record) => item_record(json_tree(*value)) == Some(record@),
            None => item_record(json_tree(*value)) is None,
        },
{
    let members = match json_members(value) {
        Some(members) => members,
        None => {
            return None;
        },
    };
    let title = read_text_field(&members, "title", "item_title");
    let artist = read_text_field(&members, "artist", "band_name");
    let tralbum_type = read_text_field(&members, "tralbum_type", "tralbum_type");
    let tralbum_id = read_unsigned_field(&members, "tralbum_id");
    let item_type = match read_text_field(&members, "item_type", "item_type") {
        Some(text) => kind_from_name(text.as_str()),
        None => None,
    };
    let item_id = read_unsigned_field(&members, "item_id");
    let sale_item_id = read_unsigned_field(&members, "sale_item_id");
    let sale_item_type = read_text_field(&members, "sale_item_type", "sale_item_type");
    match (title, artist, tralbum_type, tralbum_id, item_type, item_id, sale_item_id, sale_item_type) {
        (
            Some(title),
            Some(artist),
            Some(tralbum_type),
            Some(tralbum_id),
            Some(item_type),
            Some(item_id),
            Some(sale_item_id),
            Some(sale_item_type),
        ) => Some(
            ItemCacheCollectionItem {
                title,
                artist,
                tralbum_type,
                tralbum_id,
                item_type,
                item_id,
                sale_item_id,
                sale_item_type,
            },
        ),
        _ => None,
    }
}

/// Reads a download option from an object.
pub fn read_download_option(value: &serde_json::Value) -> (option: Option<DownloadOption>)
    ensures
        match option {
            Some(read) => download_option(json_tree(*value)) == Some(read@),
            None => download_option(json_tree(*value)) is None,
        },
{
    let members = match json_members(value) {
        Some(members) => members,
        None => {
            return None;
        },
    };
    let encoding = match read_text_field(&members, "encoding", "encoding_name") {
        Some(text) => encoding_from_name(text.as_str()),
        None => None,
    };
    let size = match read_text_field(&members, "approximate_size", "size_mb") {
        Some(text) => match parse_size(text.as_str()) {
            Ok(bytes) => Some(bytes),
            Err(_) => None,
        },
        None => None,
    };
    let url = read_text_field(&members, "url", "url");
    match (encoding, size, url) {
        (Some(encoding), Some(approximate_size), Some(url)) => Some(
            DownloadOption { encoding, approximate_size, url },
        ),
        _ => None,
    }
}

/// Reads a list of strings.
pub fn read_text_list(value: &serde_json::Value) -> (list: Option<Vec<String>>)
    ensures
        match list {
            Some(texts) => text_list(json_tree(*value)) == Some(list_view(texts@)),
            None => text_list(json_tree(*value)) is None,
        },
{
    let items = match value.as_array() {
        Some(items) => items,
        None => {
            return None;
        },
    };
    let ghost trees = element_trees(items@);
    let mut texts: Vec<String> = Vec::new();
    let mut i: usize = 0;
    while i < items.len()
        invariant
            i <= items.len(),
            trees == element_trees(items@),
            elements_of(json_tree(*value)) == Some(trees),
            texts.len() == i,
            forall|j: int| 0 <= j < i ==> text_of(#[trigger] trees[j]) == Some(texts@[j]@),
        decreases items.len() - i,
    {
        assert(trees[i as int] == json_tree(items@[i as int]));
        match read_text(&items[i]) {
            Some(text) => {
                texts.push(text);
            },
            None => {
                return None;
            },
        }
        i += 1;
    }
    assert(texts_of(trees)->0 =~= list_view(texts@));
    Some(texts)
}

/// Reads a list of item records.
pub fn read_record_list(value: &serde_json::Value) -> (list: Option<Vec<ItemCacheCollectionItem>>)
    ensures
        match list {
            Some(records) => record_list(json_tree(*value)) == Some(list_view(records@)),
            None => record_list(json_tree(*value)) is None,
        },
{
    let items = match value.as_array() {
        Some(items) => items,
        None => {
            return None;
        },
    };
    let ghost trees = element_trees(items@);
    let mut records: Vec<ItemCacheCollectionItem> = Vec::new();
    let mut i: usize = 0;
    while i < items.len()
        invariant
            i <= items.len(),
            trees == element_trees(items@),
            elements_of(json_tree(*value)) == Some(trees),
            records.len() == i,
            forall|j: int| 0 <= j < i ==> item_record(#[trigger] trees[j]) == Some(records@[j]@),
        decreases items.len() - i,
    {
        assert(trees[i as int] == json_tree(items@[i as int]));
        match read_item(&items[i]) {
            Some(record) => {
                records.push(record);
            },
            None => {
                return None;
            },
        }
        i += 1;
    }
    assert(records_of(trees)->0 =~= list_view(records@));
    Some(records)
}

/// Reads an object whose every value is a string.
pub fn read_text_table(value: &serde_json::Value) -> (table: Option<Vec<(String, String)>>)
    ensures
        match table {
            Some(rows) => text_table(json_tree(*value)) == Some(table_view(rows@))
                && distinct_keys(table_view(rows@)),
            None => text_table(json_tree(*value)) is None,
        },
{
    let members = match json_members(value) {
        Some(members) => members,
        None => {
            return None;
        },
    };
    let ghost model = member_trees(members@);
    let ghost trees = member_values(model);
    let mut rows: Vec<(String, String)> = Vec::new();
    let mut i: usize = 0;
    while i < members.len()
        invariant
            i <= members.len(),
            model == member_trees(members@),
            trees == member_values(model),
            members_of(json_tree(*value)) == Some(model),
            distinct_keys(model),
            rows.len() == i,
            forall|j: int|
                0 <= j < i ==> text_of(#[trigger] trees[j]) == Some(rows@[j].1@) && rows@[j].0@
                    == model[j].0,
        decreases members.len() - i,
    {
        let (key, child) = members[i];
        assert(trees[i as int] == json_tree(*child));
        match read_text(child) {
            Some(text) => {
                rows.push((String::from_str(key), text));
            },
            None => {
                return None;
            },
        }
        i += 1;
    }
    assert(keyed(model, texts_of(trees)->0) =~= table_view(rows@));
    assert(distinct_keys(table_view(rows@))) by {
        assert forall|i: int, j: int| 0 <= i < j < rows.len() implies (#[trigger] table_view(
            rows@,
        )[i]).0 != (#[trigger] table_view(rows@)[j]).0 by {
            assert(model[i].0 != model[j].0);
        }
    }
    Some(rows)
}

/// Reads an object whose every value is an item record.
pub fn read_record_table(value: &serde_json::Value) -> (table: Option<
    Vec<(String, ItemCacheCollectionItem)>,
>)
    ensures
        match table {
            Some(rows) => record_table(json_tree(*value)) == Some(table_view(rows@))
                && distinct_keys(table_view(rows@)),
            None => record_table(json_tree(*value)) is None,
        },
{
    let members = match json_members(value) {
        Some(members) => members,
        None => {
            return None;
        },
    };
    let ghost model = member_trees(members@);
    let ghost trees = member_values(model);
    let mut rows: Vec<(String, ItemCacheCollectionItem)> = Vec::new();
    let mut i: usize = 0;
    while i < members.len()
        invariant
            i <= members.len(),
            model == member_trees(members@),
            trees == member_values(model),
            members_of(json_tree(*value)) == Some(model),
            distinct_keys(model),
            rows.len() == i,
            forall|j: int|
                0 <= j < i ==> item_record(#[trigger] trees[j]) == Some(rows@[j].1@) && rows@[j].0@
                    == model[j].0,
        decreases members.len() - i,
    {
        let (key, child) = members[i];
        assert(trees[i as int] == json_tree(*child));
        match read_item(child) {
            Some(record) => {
                rows.push((String::from_str(key), record));
            },
            None => {
                return None;
            },
        }
        i += 1;
    }
    assert(keyed(model, records_of(trees)->0) =~= table_view(rows@));
    assert(distinct_keys(table_view(rows@))) by {
        assert forall|i: int, j: int| 0 <= i < j < rows.len() implies (#[trigger] table_view(
            rows@,
        )[i]).0 != (#[trigger] table_view(rows@)[j]).0 by {
            assert(model[i].0 != model[j].0);
        }
    }
    Some(rows)
}

/// Reads the download options that are the values of an object.
pub fn read_option_list(value: &serde_json::Value) -> (list: Option<Vec<DownloadOption>>)
    ensures
        match list {
            Some(options) => option_list(json_tree(*value)) == Some(list_view(options@)),
            None => option_list(json_tree(*value)) is None,
        },
{
    let members = match json_members(value) {
        Some(members) => members,
        None => {
            return None;
        },
    };
    let ghost model = member_trees(members@);
    let ghost trees = member_values(model);
    let mut options: Vec<DownloadOption> = Vec::new();
    let mut i: usize = 0;
    while i < members.len()
        invariant
            i <= members.len(),
            model == member_trees(members@),
            trees == member_values(model),
            members_of(json_tree(*value)) == Some(model),
            options.len() == i,
            forall|j: int|
                0 <= j < i ==> download_option(#[trigger] trees[j]) == Some(options@[j]@),
        decreases members.len() - i,
    {
        let (_, child) = members[i];
        assert(trees[i as int] == json_tree(*child));
        match read_download_option(child) {
            Some(option) => {
                options.push(option);
            },
            None => {
                return None;
            },
        }
        i += 1;
    }
    assert(options_of(trees)->0 =~= list_view(options@));
    Some(options)
}

} // verus!
