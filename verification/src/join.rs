//! Joins the three tables of a collection page into catalog items: the
//! sequence list gives the order, the item cache the records, and the table
//! of download addresses the address of each sale. The tables are looked
//! things up in and stay as they are: two items of one sale get the same
//! address.

use crate::decimal::{decimal_string, decimal_text};
use crate::error::{PageFault, ParsePageError};
use crate::json::distinct_keys;
use crate::records::{list_view, table_view, ItemCacheCollectionItem, ItemRecord};
use crate::text::same_text;
use crate::types::{CollectionItem, CollectionItemView};
use vstd::prelude::*;
use vstd::string::StringExecFns;

verus! {

/// Whether a table has a row with this key.
pub open spec fn holds_key<T>(table: Seq<(Seq<char>, T)>, key: Seq<char>) -> bool {
    exists|i: int| 0 <= i < table.len() && (#[trigger] table[i]).0 == key
}

/// Whether row `i` is the first with this key.
pub open spec fn first_at<T>(table: Seq<(Seq<char>, T)>, key: Seq<char>, i: int) -> bool {
    &&& 0 <= i < table.len()
    &&& table[i].0 == key
    &&& forall|j: int| 0 <= j < i ==> (#[trigger] table[j]).0 != key
}

/// The first row with this key.
pub open spec fn key_index<T>(table: Seq<(Seq<char>, T)>, key: Seq<char>) -> int {
    choose|i: int| first_at(table, key, i)
}

/// A result with some items put in front of it.
pub open spec fn prepend<T>(front: Seq<T>, rest: Result<Seq<T>, PageFault>) -> Result<
    Seq<T>,
    PageFault,
> {
    match rest {
        Ok(items) => Ok(front + items),
        Err(fault) => Err(fault),
    }
}

/// What a table holds under a key: the value of the first row with it.
pub open spec fn looked_up<T>(table: Seq<(Seq<char>, T)>, key: Seq<char>) -> Option<T> {
    if holds_key(table, key) {
        Some(table[key_index(table, key)].1)
    } else {
        None
    }
}

/// In a table that holds each key once, what is looked up under the key of
/// a row is that row's value.
pub proof fn lemma_looked_up_row<T>(table: Seq<(Seq<char>, T)>, i: int)
    requires
        distinct_keys(table),
        0 <= i < table.len(),
    ensures
        looked_up(table, table[i].0) == Some(table[i].1),
{
    let key = table[i].0;
    assert(holds_key(table, key));
    assert(first_at(table, key, i)) by {
        assert forall|j: int| 0 <= j < i implies (#[trigger] table[j]).0 != key by {
            assert(table[j].0 != table[i].0);
        }
    }
    let chosen = key_index(table, key);
    assert(first_at(table, key, chosen));
    if chosen < i {
        assert(table[chosen].0 != table[i].0);
    }
}

/// The records that the sequence list names, in its order: each key is
/// looked up in the item cache, and the first key that is not there is a
/// fault.
pub open spec fn pick_records(
    sequence: Seq<Seq<char>>,
    table: Seq<(Seq<char>, ItemRecord)>,
) -> Result<Seq<ItemRecord>, PageFault>
    decreases sequence.len(),
{
    if sequence.len() == 0 {
        Ok(Seq::empty())
    } else {
        match looked_up(table, sequence[0]) {
            None => Err(PageFault::MissingItem(sequence[0])),
            Some(record) => prepend(seq![record], pick_records(sequence.drop_first(), table)),
        }
    }
}

/// The key under which the address of a record's sale is listed: the type of
/// the sale and its number, with nothing between them.
pub open spec fn sale_key(record: ItemRecord) -> Seq<char> {
    record.sale_item_type + decimal_text(record.sale_item_id as nat)
}

/// The catalog item that a record and its address make.
pub open spec fn item_of(record: ItemRecord, url: Seq<char>) -> CollectionItemView {
    CollectionItemView {
        itype: record.item_type,
        title: record.title,
        artist: record.artist,
        download_url: url,
    }
}

/// The catalog items that the records make, each with the address that the
/// table holds under the key of its sale. The first sale that has no
/// address is a fault.
pub open spec fn attach_urls(
    records: Seq<ItemRecord>,
    urls: Seq<(Seq<char>, Seq<char>)>,
) -> Result<Seq<CollectionItemView>, PageFault>
    decreases records.len(),
{
    if records.len() == 0 {
        Ok(Seq::empty())
    } else {
        match looked_up(urls, sale_key(records[0])) {
            None => Err(PageFault::MissingRedownloadUrl(sale_key(records[0]))),
            Some(url) => prepend(
                seq![item_of(records[0], url)],
                attach_urls(records.drop_first(), urls),
            ),
        }
    }
}

/// The catalog items of a collection: the records picked by the sequence
/// list, each with its address.
pub open spec fn joined(
    sequence: Seq<Seq<char>>,
    table: Seq<(Seq<char>, ItemRecord)>,
    urls: Seq<(Seq<char>, Seq<char>)>,
) -> Result<Seq<CollectionItemView>, PageFault> {
    match pick_records(sequence, table) {
        Ok(records) => attach_urls(records, urls),
        Err(fault) => Err(fault),
    }
}

/// The records are picked exactly where every key of the sequence list is a
/// key of the item cache: there is then one record for each key, in the
/// order of the list, and it is the one that the cache holds under the key.
/// Otherwise the fault names the first key that is not there.
pub proof fn lemma_pick_records(sequence: Seq<Seq<char>>, table: Seq<(Seq<char>, ItemRecord)>)
    ensures
        match pick_records(sequence, table) {
            Ok(records) => {
                &&& records.len() == sequence.len()
                &&& forall|i: int|
                    0 <= i < sequence.len() ==> looked_up(table, sequence[i]) == Some(
                        #[trigger] records[i],
                    )
            },
            Err(fault) => exists|i: int|
                {
                    &&& 0 <= i < sequence.len()
                    &&& looked_up(table, #[trigger] sequence[i]) is None
                    &&& fault == PageFault::MissingItem(sequence[i])
                    &&& forall|j: int| 0 <= j < i ==> looked_up(table, #[trigger] sequence[j]) is Some
                },
        },
    decreases sequence.len(),
{
    if sequence.len() > 0 {
        let rest = sequence.drop_first();
        lemma_pick_records(rest, table);
        match looked_up(table, sequence[0]) {
            None => {
                assert(looked_up(table, sequence[0]) is None);
            },
            Some(record) => {
                match pick_records(rest, table) {
                    Ok(records) => {
                        let all = seq![record] + records;
                        assert forall|i: int| 0 <= i < sequence.len() implies looked_up(
                            table,
                            sequence[i],
                        ) == Some(#[trigger] all[i]) by {
                            if i > 0 {
                                assert(sequence[i] == rest[i - 1]);
                                assert(all[i] == records[i - 1]);
                            }
                        }
                    },
                    Err(fault) => {
                        let i = choose|i: int|
                            {
                                &&& 0 <= i < rest.len()
                                &&& looked_up(table, #[trigger] rest[i]) is None
                                &&& fault == PageFault::MissingItem(rest[i])
                                &&& forall|j: int|
                                    0 <= j < i ==> looked_up(table, #[trigger] rest[j]) is Some
                            };
                        assert(sequence[i + 1] == rest[i]);
                        assert forall|j: int| 0 <= j < i + 1 implies looked_up(
                            table,
                            #[trigger] sequence[j],
                        ) is Some by {
                            if j > 0 {
                                assert(sequence[j] == rest[j - 1]);
                            }
                        }
                    },
                }
            },
        }
    }
}

/// The addresses are attached exactly where the key of every record's sale
/// is a key of the table: there is then one item for each record, in order,
/// with the address that the table holds under that key, however many
/// records share it. Otherwise the fault names the key of the first sale
/// that has no address.
pub proof fn lemma_attach_urls(records: Seq<ItemRecord>, urls: Seq<(Seq<char>, Seq<char>)>)
    ensures
        match attach_urls(records, urls) {
            Ok(items) => {
                &&& items.len() == records.len()
                &&& forall|i: int|
                    0 <= i < records.len() ==> {
                        &&& looked_up(urls, sale_key(records[i])) is Some
                        &&& #[trigger] items[i] == item_of(
                            records[i],
                            looked_up(urls, sale_key(records[i]))->0,
                        )
                    }
            },
            Err(fault) => exists|i: int|
                {
                    &&& 0 <= i < records.len()
                    &&& looked_up(urls, sale_key(#[trigger] records[i])) is None
                    &&& fault == PageFault::MissingRedownloadUrl(sale_key(records[i]))
                    &&& forall|j: int|
                        0 <= j < i ==> looked_up(urls, sale_key(#[trigger] records[j])) is Some
                },
        },
    decreases records.len(),
{
    if records.len() > 0 {
        let rest = records.drop_first();
        lemma_attach_urls(rest, urls);
        match looked_up(urls, sale_key(records[0])) {
            None => {
                assert(looked_up(urls, sale_key(records[0])) is None);
            },
            Some(url) => {
                match attach_urls(rest, urls) {
                    Ok(items) => {
                        let all = seq![item_of(records[0], url)] + items;
                        assert forall|i: int| 0 <= i < records.len() implies {
                            &&& looked_up(urls, sale_key(records[i])) is Some
                            &&& #[trigger] all[i] == item_of(
                                records[i],
                                looked_up(urls, sale_key(records[i]))->0,
                            )
                        } by {
                            if i > 0 {
                                assert(records[i] == rest[i - 1]);
                                assert(all[i] == items[i - 1]);
                            }
                        }
                    },
                    Err(fault) => {
                        let i = choose|i: int|
                            {
                                &&& 0 <= i < rest.len()
                                &&& looked_up(urls, sale_key(#[trigger] rest[i])) is None
                                &&& fault == PageFault::MissingRedownloadUrl(sale_key(rest[i]))
                                &&& forall|j: int|
                                    0 <= j < i ==> looked_up(urls, sale_key(#[trigger] rest[j]))
                                        is Some
                            };
                        assert(records[i + 1] == rest[i]);
                        assert forall|j: int| 0 <= j < i + 1 implies looked_up(
                            urls,
                            sale_key(#[trigger] records[j]),
                        ) is Some by {
                            if j > 0 {
                                assert(records[j] == rest[j - 1]);
                            }
                        }
                    },
                }
            },
        }
    }
}

/// Finds the first row with a key.
fn find_row<T: View>(table: &Vec<(String, T)>, key: &str) -> (found: Option<usize>)
    ensures
        match found {
            Some(i) => holds_key(table_view(table@), key@) && i == key_index(
                table_view(table@),
                key@,
            ) && i < table.len(),
            None => !holds_key(table_view(table@), key@),
        },
{
    let ghost rows = table_view(table@);
    let mut i: usize = 0;
    while i < table.len()
        invariant
            i <= table.len(),
            rows == table_view(table@),
            forall|j: int| 0 <= j < i ==> (#[trigger] rows[j]).0 != key@,
        decreases table.len() - i,
    {
        if same_text(table[i].0.as_str(), key) {
            assert(rows[i as int].0 == key@);
            assert(first_at(rows, key@, i as int));
            let ghost chosen = key_index(rows, key@);
            assert(chosen == i) by {
                assert(first_at(rows, key@, chosen));
                if chosen < i {
                    assert(rows[chosen].0 != key@);
                }
                if i < chosen {
                    assert(rows[i as int].0 != key@);
                }
            }
            return Some(i);
        }
        i += 1;
    }
    None
}

/// A copy of a record.
fn copy_record(record: &ItemCacheCollectionItem) -> (copy: ItemCacheCollectionItem)
    ensures
        copy@ == record@,
{
    ItemCacheCollectionItem {
        title: record.title.clone(),
        artist: record.artist.clone(),
        tralbum_type: record.tralbum_type.clone(),
        tralbum_id: record.tralbum_id,
        item_type: record.item_type,
        item_id: record.item_id,
        sale_item_id: record.sale_item_id,
        sale_item_type: record.sale_item_type.clone(),
    }
}

/// Picks the records that the sequence list names, in its order.
pub fn pick_items(sequence: &Vec<String>, table: &Vec<(String, ItemCacheCollectionItem)>) -> (r:
    Result<Vec<ItemCacheCollectionItem>, ParsePageError>)
    ensures
        match r {
            Ok(records) => pick_records(list_view(sequence@), table_view(table@)) == Ok::<
                Seq<ItemRecord>,
                PageFault,
            >(list_view(records@)),
            Err(fault) => pick_records(list_view(sequence@), table_view(table@)) == Err::<
                Seq<ItemRecord>,
                PageFault,
            >(fault@),
        },
{
    let ghost keys = list_view(sequence@);
    let ghost rows = table_view(table@);
    let ghost whole = pick_records(keys, rows);
    let mut records: Vec<ItemCacheCollectionItem> = Vec::new();
    let mut k: usize = 0;
    assert(keys.skip(0) =~= keys);
    assert(list_view(records@) =~= Seq::<ItemRecord>::empty());
    assert(prepend(Seq::<ItemRecord>::empty(), whole) == whole) by {
        if let Ok(items) = whole {
            assert(Seq::<ItemRecord>::empty() + items =~= items);
        }
    }
    while k < sequence.len()
        invariant
            k <= sequence.len(),
            keys == list_view(sequence@),
            rows == table_view(table@),
            whole == pick_records(keys, rows),
            whole == prepend(list_view(records@), pick_records(keys.skip(k as int), rows)),
        decreases sequence.len() - k,
    {
        let ghost rest = keys.skip(k as int);
        let ghost done = list_view(records@);
        assert(rest[0] == sequence@[k as int]@);
        assert(rest.drop_first() =~= keys.skip(k + 1));
        match find_row(table, sequence[k].as_str()) {
            None => {
                return Err(ParsePageError::MissingItem(sequence[k].clone()));
            },
            Some(at) => {
                let ghost after = pick_records(keys.skip(k + 1), rows);
                let record = copy_record(&table[at].1);
                assert(record@ == rows[at as int].1);
                records.push(record);
                assert(list_view(records@) =~= done.push(record@));
                assert(prepend(done, prepend(seq![record@], after)) == prepend(
                    done.push(record@),
                    after,
                )) by {
                    if let Ok(items) = after {
                        assert(done + (seq![record@] + items) =~= done.push(record@) + items);
                    }
                }
            },
        }
        k += 1;
    }
    assert(keys.skip(k as int) =~= Seq::<Seq<char>>::empty());
    assert(list_view(records@) + Seq::<ItemRecord>::empty() =~= list_view(records@));
    Ok(records)
}

/// The key under which the address of a record's sale is listed.
pub fn sale_key_of(record: &ItemCacheCollectionItem) -> (key: String)
    ensures
        key@ == sale_key(record@),
{
    let mut key = record.sale_item_type.clone();
    let number = decimal_string(record.sale_item_id);
    key.append(number.as_str());
    key
}

/// Makes a catalog item of each record, with the address of its sale.
pub fn attach_download_urls(
    records: &Vec<ItemCacheCollectionItem>,
    urls: &Vec<(String, String)>,
) -> (r: Result<Vec<CollectionItem>, ParsePageError>)
    ensures
        match r {
            Ok(items) => attach_urls(list_view(records@), table_view(urls@)) == Ok::<
                Seq<CollectionItemView>,
                PageFault,
            >(list_view(items@)),
            Err(fault) => attach_urls(list_view(records@), table_view(urls@)) == Err::<
                Seq<CollectionItemView>,
                PageFault,
            >(fault@),
        },
{
    let ghost all = list_view(records@);
    let ghost rows = table_view(urls@);
    let ghost whole = attach_urls(all, rows);
    let mut items: Vec<CollectionItem> = Vec::new();
    let mut k: usize = 0;
    assert(all.skip(0) =~= all);
    assert(list_view(items@) =~= Seq::<CollectionItemView>::empty());
    assert(prepend(Seq::<CollectionItemView>::empty(), whole) == whole) by {
        if let Ok(found) = whole {
            assert(Seq::<CollectionItemView>::empty() + found =~= found);
        }
    }
    while k < records.len()
        invariant
            k <= records.len(),
            all == list_view(records@),
            rows == table_view(urls@),
            whole == attach_urls(all, rows),
            whole == prepend(list_view(items@), attach_urls(all.skip(k as int), rows)),
        decreases records.len() - k,
    {
        let ghost rest = all.skip(k as int);
        let ghost done = list_view(items@);
        assert(rest[0] == records@[k as int]@);
        assert(rest.drop_first() =~= all.skip(k + 1));
        let record = &records[k];
        let key = sale_key_of(record);
        match find_row(urls, key.as_str()) {
            None => {
                return Err(ParsePageError::MissingRedownloadUrl(key));
            },
            Some(at) => {
                let ghost after = attach_urls(all.skip(k + 1), rows);
                let item = CollectionItem {
                    itype: record.item_type,
                    title: record.title.clone(),
                    artist: record.artist.clone(),
                    download_url: urls[at].1.clone(),
                };
                assert(item@ == item_of(record@, rows[at as int].1));
                items.push(item);
                assert(list_view(items@) =~= done.push(item@));
                assert(prepend(done, prepend(seq![item@], after)) == prepend(
                    done.push(item@),
                    after,
                )) by {
                    if let Ok(found) = after {
                        assert(done + (seq![item@] + found) =~= done.push(item@) + found);
                    }
                }
            },
        }
        k += 1;
    }
    assert(all.skip(k as int) =~= Seq::<ItemRecord>::empty());
    assert(list_view(items@) + Seq::<CollectionItemView>::empty() =~= list_view(items@));
    Ok(items)
}

/// Joins the three tables of a collection into its catalog items.
pub fn assemble_collection(
    sequence: &Vec<String>,
    table: &Vec<(String, ItemCacheCollectionItem)>,
    urls: &Vec<(String, String)>,
) -> (r: Result<Vec<CollectionItem>, ParsePageError>)
    ensures
        match r {
            Ok(items) => joined(list_view(sequence@), table_view(table@), table_view(urls@))
                == Ok::<Seq<CollectionItemView>, PageFault>(list_view(items@)),
            Err(fault) => joined(list_view(sequence@), table_view(table@), table_view(urls@))
                == Err::<Seq<CollectionItemView>, PageFault>(fault@),
        },
{
    match pick_items(sequence, table) {
        Ok(records) => attach_download_urls(&records, urls),
        Err(fault) => Err(fault),
    }
}

} // verus!
