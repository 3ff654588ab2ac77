//! The cookies that the browsers hold for the service: which of them are
//! kept, in which order the browsers' profiles are tried, and how a cookie is
//! handed to the transport.

use crate::records::list_view;
use crate::text::{ends_with, has_suffix};
use vstd::prelude::*;
use vstd::string::StringExecFns;

verus! {

/// The host of the service: a cookie is kept where its host ends with it.
pub const SERVICE_HOST: &'static str = "bandcamp.com";

/// What stands between the name and the value of a cookie.
pub const COOKIE_ASSIGNMENT: &'static str = "=";

/// What follows the value of a cookie: the domain that it is sent to.
pub const COOKIE_DOMAIN: &'static str = "; Domain=bandcamp.com";

/// One cookie of a browser.
#[derive(Clone, Debug, PartialEq, Eq)]
pub struct BrowserCookie {
    pub host: String,
    pub name: String,
    pub value: String,
    /// When the browser last used the cookie, in nanoseconds since 1970, where
    /// the browser keeps track of it.
    pub last_accessed: Option<i128>,
}

/// The mathematical value of a cookie.
pub struct CookieView {
    pub host: Seq<char>,
    pub name: Seq<char>,
    pub value: Seq<char>,
    pub last_accessed: Option<i128>,
}

impl View for BrowserCookie {
    type V = CookieView;

    open spec fn view(&self) -> CookieView {
        CookieView {
            host: self.host@,
            name: self.name@,
            value: self.value@,
            last_accessed: self.last_accessed,
        }
    }
}

/// Whether a cookie is one of the service's.
pub open spec fn is_service_cookie(cookie: CookieView) -> bool {
    has_suffix(cookie.host, SERVICE_HOST@)
}

/// The cookies of the service among some cookies, in their order.
pub open spec fn service_cookies(cookies: Seq<CookieView>) -> Seq<CookieView> {
    cookies.filter(|cookie: CookieView| is_service_cookie(cookie))
}

/// Whether one time of access comes before another; no time comes before
/// any time.
pub open spec fn accessed_before(one: Option<i128>, other: Option<i128>) -> bool {
    match (one, other) {
        (None, Some(_)) => true,
        (Some(earlier), Some(later)) => earlier < later,
        _ => false,
    }
}

/// The later of two times of access.
pub open spec fn later_access(one: Option<i128>, other: Option<i128>) -> Option<i128> {
    if accessed_before(one, other) {
        other
    } else {
        one
    }
}

/// When the cookies of a profile were last used: the latest time among
/// them.
pub open spec fn latest_access(cookies: Seq<CookieView>) -> Option<i128>
    decreases cookies.len(),
{
    if cookies.len() == 0 {
        None
    } else {
        later_access(latest_access(cookies.drop_last()), cookies.last().last_accessed)
    }
}

/// Whether profile `i` is tried before profile `j`: the one that was used
/// longer ago comes first, and of two that were used at the same time the
/// one that was found first.
pub open spec fn tried_before(keys: Seq<Option<i128>>, i: int, j: int) -> bool {
    accessed_before(keys[i], keys[j]) || (keys[i] == keys[j] && i < j)
}

/// Whether `order` names every profile once, each before those that are tried
/// after it.
pub open spec fn is_access_order(keys: Seq<Option<i128>>, order: Seq<int>) -> bool {
    &&& order.len() == keys.len()
    &&& forall|k: int| 0 <= k < order.len() ==> 0 <= #[trigger] order[k] < keys.len()
    &&& forall|k: int, l: int|
        0 <= k < l < order.len() ==> tried_before(keys, #[trigger] order[k], #[trigger] order[l])
    &&& forall|i: int| 0 <= i < keys.len() ==> #[trigger] order.contains(i)
}

/// The profiles that hold a cookie of the service, each with those cookies
/// only.
pub open spec fn kept_profiles(profiles: Seq<Seq<CookieView>>) -> Seq<Seq<CookieView>> {
    profiles.map_values(|profile: Seq<CookieView>| service_cookies(profile)).filter(
        |profile: Seq<CookieView>| profile.len() > 0,
    )
}

/// When each of some profiles was last used.
pub open spec fn access_keys(profiles: Seq<Seq<CookieView>>) -> Seq<Option<i128>> {
    profiles.map_values(|profile: Seq<CookieView>| latest_access(profile))
}

/// Whether some profiles are others in the order in which they are tried.
pub open spec fn in_access_order(
    profiles: Seq<Seq<CookieView>>,
    ordered: Seq<Seq<CookieView>>,
) -> bool {
    exists|order: Seq<int>|
        #![auto]
        is_access_order(access_keys(profiles), order) && ordered == order.map_values(
            |i: int| profiles[i],
        )
}

/// The views of some profiles.
pub open spec fn profiles_view(profiles: Seq<Vec<BrowserCookie>>) -> Seq<Seq<CookieView>> {
    Seq::new(profiles.len(), |i: int| list_view(profiles[i]@))
}

/// The places in a row of indices, as numbers.
pub open spec fn places(order: Seq<usize>) -> Seq<int> {
    order.map_values(|i: usize| i as int)
}

/// The header in which a cookie is handed to the transport.
pub open spec fn cookie_header_text(cookie: CookieView) -> Seq<char> {
    cookie.name + COOKIE_ASSIGNMENT@ + cookie.value + COOKIE_DOMAIN@
}

/// Writes the header in which a cookie is handed to the transport: its name,
/// its value, and the domain of the service.
pub fn cookie_header(cookie: &BrowserCookie) -> (header: String)
    ensures
        header@ == cookie_header_text(cookie@),
{
    let mut header = cookie.name.clone();
    header.append(COOKIE_ASSIGNMENT);
    header.append(cookie.value.as_str());
    header.append(COOKIE_DOMAIN);
    header
}

/// A copy of a cookie.
fn copy_cookie(cookie: &BrowserCookie) -> (copy: BrowserCookie)
    ensures
        copy@ == cookie@,
{
    BrowserCookie {
        host: cookie.host.clone(),
        name: cookie.name.clone(),
        value: cookie.value.clone(),
        last_accessed: cookie.last_accessed,
    }
}

/// A copy of a profile.
fn copy_profile(cookies: &Vec<BrowserCookie>) -> (copy: Vec<BrowserCookie>)
    ensures
        list_view(copy@) == list_view(cookies@),
{
    let mut copy: Vec<BrowserCookie> = Vec::new();
    let mut i: usize = 0;
    while i < cookies.len()
        invariant
            i <= cookies.len(),
            copy.len() == i,
            forall|j: int| 0 <= j < i ==> copy@[j]@ == cookies@[j]@,
        decreases cookies.len() - i,
    {
        copy.push(copy_cookie(&cookies[i]));
        i += 1;
    }
    assert(list_view(copy@) =~= list_view(cookies@));
    copy
}

/// Keeps the cookies whose host ends with that of the service.
pub fn keep_service_cookies(cookies: &Vec<BrowserCookie>) -> (kept: Vec<BrowserCookie>)
    ensures
        list_view(kept@) == service_cookies(list_view(cookies@)),
{
    let ghost all = list_view(cookies@);
    let ghost wanted = |cookie: CookieView| is_service_cookie(cookie);
    let mut kept: Vec<BrowserCookie> = Vec::new();
    let mut i: usize = 0;
    proof {
        reveal_with_fuel(Seq::filter, 1);
        assert(all.take(0) =~= Seq::<CookieView>::empty());
        assert(list_view(kept@) =~= all.take(0).filter(wanted));
    }
    while i < cookies.len()
        invariant
            i <= cookies.len(),
            all == list_view(cookies@),
            wanted == |cookie: CookieView| is_service_cookie(cookie),
            list_view(kept@) == all.take(i as int).filter(wanted),
        decreases cookies.len() - i,
    {
        let ghost before = list_view(kept@);
        proof {
            reveal_with_fuel(Seq::filter, 1);
            assert(all.take(i + 1).drop_last() =~= all.take(i as int));
            assert(all.take(i + 1).last() == cookies@[i as int]@);
        }
        if ends_with(cookies[i].host.as_str(), SERVICE_HOST) {
            kept.push(copy_cookie(&cookies[i]));
            assert(list_view(kept@) =~= before.push(cookies@[i as int]@));
        }
        i += 1;
    }
    assert(all.take(i as int) =~= all);
    kept
}

/// Whether one time of access comes before another.
pub fn is_accessed_before(one: Option<i128>, other: Option<i128>) -> (before: bool)
    ensures
        before == accessed_before(one, other),
{
    match (one, other) {
        (None, Some(_)) => true,
        (Some(earlier), Some(later)) => earlier < later,
        _ => false,
    }
}

/// When the cookies of a profile were last used.
pub fn last_access(cookies: &Vec<BrowserCookie>) -> (latest: Option<i128>)
    ensures
        latest == latest_access(list_view(cookies@)),
{
    let ghost all = list_view(cookies@);
    let mut latest: Option<i128> = None;
    let mut i: usize = 0;
    assert(all.take(0) =~= Seq::<CookieView>::empty());
    while i < cookies.len()
        invariant
            i <= cookies.len(),
            all == list_view(cookies@),
            latest == latest_access(all.take(i as int)),
        decreases cookies.len() - i,
    {
        assert(all.take(i + 1).drop_last() =~= all.take(i as int));
        assert(all.take(i + 1).last() == cookies@[i as int]@);
        if is_accessed_before(latest, cookies[i].last_accessed) {
            latest = cookies[i].last_accessed;
        }
        i += 1;
    }
    assert(all.take(i as int) =~= all);
    latest
}

/// The order in which profiles are tried, given when each was last used:
/// the one used longest ago first, and those used at the same time in the
/// order in which they were found.
pub fn access_order(keys: &Vec<Option<i128>>) -> (order: Vec<usize>)
    ensures
        is_access_order(keys@, places(order@)),
{
    let mut order: Vec<usize> = Vec::new();
    let mut i: usize = 0;
    while i < keys.len()
        invariant
            i <= keys.len(),
            order.len() == i,
            forall|k: int| 0 <= k < i ==> #[trigger] order@[k] < i,
            forall|k: int, l: int|
                0 <= k < l < i ==> tried_before(
                    keys@,
                    #[trigger] order@[k] as int,
                    #[trigger] order@[l] as int,
                ),
            forall|j: int| 0 <= j < i ==> #[trigger] places(order@).contains(j),
        decreases keys.len() - i,
    {
        let key = keys[i];
        let mut p: usize = order.len();
        while p > 0 && is_accessed_before(key, keys[order[p - 1]])
            invariant
                p <= i == order.len(),
                i < keys.len(),
                key == keys@[i as int],
                forall|k: int| 0 <= k < i ==> #[trigger] order@[k] < i,
                forall|k: int| p <= k < i ==> accessed_before(key, keys@[#[trigger] order@[k] as int]),
            decreases p,
        {
            p -= 1;
        }
        let ghost before = order@;
        order.insert(p, i);
        proof {
            let after = order@;
            assert forall|k: int| 0 <= k < i + 1 implies #[trigger] after[k] < i + 1 by {
                if k < p {
                    assert(after[k] == before[k]);
                } else if k > p {
                    assert(after[k] == before[k - 1]);
                }
            }
            assert forall|k: int, l: int| 0 <= k < l < i + 1 implies tried_before(
                keys@,
                #[trigger] after[k] as int,
                #[trigger] after[l] as int,
            ) by {
                if l < p {
                    assert(after[k] == before[k] && after[l] == before[l]);
                } else if l == p {
                    assert(after[k] == before[k]);
                    assert(before[k] < i);
                    if k < p - 1 {
                        assert(tried_before(keys@, before[k] as int, before[p - 1] as int));
                    }
                } else if k < p {
                    assert(after[k] == before[k] && after[l] == before[l - 1]);
                } else if k == p {
                    assert(after[l] == before[l - 1]);
                } else {
                    assert(after[k] == before[k - 1] && after[l] == before[l - 1]);
                }
            }
            assert forall|j: int| 0 <= j < i + 1 implies #[trigger] places(after).contains(j) by {
                if j == i {
                    assert(places(after)[p as int] == j);
                } else {
                    assert(places(before).contains(j));
                    let k = choose|k: int| 0 <= k < before.len() && places(before)[k] == j;
                    if k < p {
                        assert(places(after)[k] == j);
                    } else {
                        assert(places(after)[k + 1] == j);
                    }
                }
            }
        }
        i += 1;
    }
    order
}

/// Keeps of every profile the cookies of the service, leaves out the
/// profiles that hold none, and puts the others in the order in which they
/// are tried.
pub fn order_profiles(profiles: &Vec<Vec<BrowserCookie>>) -> (ordered: Vec<Vec<BrowserCookie>>)
    ensures
        in_access_order(kept_profiles(profiles_view(profiles@)), profiles_view(ordered@)),
{
    let ghost all = profiles_view(profiles@);
    let ghost cleaned = all.map_values(|profile: Seq<CookieView>| service_cookies(profile));
    let ghost filled = |profile: Seq<CookieView>| profile.len() > 0;
    let mut kept: Vec<Vec<BrowserCookie>> = Vec::new();
    let mut keys: Vec<Option<i128>> = Vec::new();
    let mut i: usize = 0;
    proof {
        reveal_with_fuel(Seq::filter, 1);
        assert(cleaned.take(0) =~= Seq::<Seq<CookieView>>::empty());
        assert(profiles_view(kept@) =~= cleaned.take(0).filter(filled));
    }
    while i < profiles.len()
        invariant
            i <= profiles.len(),
            all == profiles_view(profiles@),
            cleaned == all.map_values(|profile: Seq<CookieView>| service_cookies(profile)),
            filled == |profile: Seq<CookieView>| profile.len() > 0,
            profiles_view(kept@) == cleaned.take(i as int).filter(filled),
            keys.len() == kept.len(),
            forall|k: int| 0 <= k < kept.len() ==> #[trigger] keys@[k] == latest_access(
                list_view(kept@[k]@),
            ),
        decreases profiles.len() - i,
    {
        let ghost before = profiles_view(kept@);
        let cookies = keep_service_cookies(&profiles[i]);
        proof {
            reveal_with_fuel(Seq::filter, 1);
            assert(cleaned.take(i + 1).drop_last() =~= cleaned.take(i as int));
            assert(cleaned.take(i + 1).last() == list_view(cookies@));
        }
        if cookies.len() > 0 {
            keys.push(last_access(&cookies));
            kept.push(cookies);
            assert(profiles_view(kept@) =~= before.push(list_view(cookies@)));
        }
        i += 1;
    }
    assert(cleaned.take(i as int) =~= cleaned);
    let ghost chosen = profiles_view(kept@);
    assert(keys@ =~= access_keys(chosen));
    let order = access_order(&keys);
    let mut ordered: Vec<Vec<BrowserCookie>> = Vec::new();
    let mut k: usize = 0;
    while k < order.len()
        invariant
            k <= order.len(),
            order.len() == kept.len(),
            chosen == profiles_view(kept@),
            is_access_order(access_keys(chosen), places(order@)),
            ordered.len() == k,
            forall|j: int| 0 <= j < k ==> list_view(#[trigger] ordered@[j]@) == chosen[order@[j] as int],
        decreases order.len() - k,
    {
        assert(0 <= places(order@)[k as int] < kept.len());
        ordered.push(copy_profile(&kept[order[k]]));
        k += 1;
    }
    assert(profiles_view(ordered@) =~= places(order@).map_values(|i: int| chosen[i]));
    ordered
}

} // verus!
