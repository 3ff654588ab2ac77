//! Which of the encodings on offer is fetched.

use crate::records::{list_view, DownloadOption, DownloadOptionView};
use crate::types::Encoding;
use vstd::prelude::*;

verus! {

/// Whether an encoding is on offer.
pub open spec fn offers(options: Seq<DownloadOptionView>, encoding: Encoding) -> bool {
    exists|i: int| 0 <= i < options.len() && (#[trigger] options[i]).encoding == encoding
}

/// Whether option `i` is the first of an encoding.
pub open spec fn first_offer_at(options: Seq<DownloadOptionView>, encoding: Encoding, i: int) -> bool {
    &&& 0 <= i < options.len()
    &&& options[i].encoding == encoding
    &&& forall|j: int| 0 <= j < i ==> (#[trigger] options[j]).encoding != encoding
}

/// The first option of an encoding.
pub open spec fn first_offer(options: Seq<DownloadOptionView>, encoding: Encoding) -> int {
    choose|i: int| first_offer_at(options, encoding, i)
}

/// The option that is fetched: the first option of the first preference that
/// is on offer at all. No other encoding stands in for a preference.
pub open spec fn picked(preferences: Seq<Encoding>, options: Seq<DownloadOptionView>) -> Option<
    int,
>
    decreases preferences.len(),
{
    if preferences.len() == 0 {
        None
    } else if offers(options, preferences[0]) {
        Some(first_offer(options, preferences[0]))
    } else {
        picked(preferences.drop_first(), options)
    }
}

/// Picks the option to fetch: the first preference that appears among the
/// options decides, and `None` says that none does.
pub fn pick_format<'a>(preferences: &Vec<Encoding>, items: &'a Vec<DownloadOption>) -> (choice:
    Option<&'a DownloadOption>)
    ensures
        match choice {
            Some(option) => {
                let at = picked(preferences@, list_view(items@));
                at is Some && 0 <= at->0 < items.len() && *option == items@[at->0]
            },
            None => picked(preferences@, list_view(items@)) is None,
        },
{
    let ghost options = list_view(items@);
    let mut p: usize = 0;
    assert(preferences@.skip(0) =~= preferences@);
    while p < preferences.len()
        invariant
            p <= preferences.len(),
            options == list_view(items@),
            picked(preferences@, options) == picked(preferences@.skip(p as int), options),
        decreases preferences.len() - p,
    {
        let preference = preferences[p];
        let ghost rest = preferences@.skip(p as int);
        assert(rest[0] == preference);
        assert(rest.drop_first() =~= preferences@.skip(p + 1));
        let mut i: usize = 0;
        while i < items.len()
            invariant
                i <= items.len(),
                p < preferences.len(),
                preference == preferences@[p as int],
                options == list_view(items@),
                picked(preferences@, options) == picked(preferences@.skip(p as int), options),
                forall|j: int| 0 <= j < i ==> (#[trigger] options[j]).encoding != preference,
            decreases items.len() - i,
        {
            if items[i].encoding == preference {
                proof {
                    assert(preferences@.skip(p as int)[0] == preference);
                    assert(options[i as int].encoding == preference);
                    assert(first_offer_at(options, preference, i as int));
                    let chosen = first_offer(options, preference);
                    assert(first_offer_at(options, preference, chosen));
                    if chosen < i {
                        assert(options[chosen].encoding != preference);
                    }
                    if i < chosen {
                        assert(options[i as int].encoding != preference);
                    }
                }
                return Some(&items[i]);
            }
            i += 1;
        }
        p += 1;
    }
    assert(preferences@.skip(p as int) =~= Seq::<Encoding>::empty());
    None
}

} // verus!
