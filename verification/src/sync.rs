//! Gathers the whole collection: first the items of the collection page,
//! then batch after batch until one says that no more are left.

use crate::parser::{CollectionJSON, CollectionJSONView, CollectionPageData, CollectionPageDataView};
use crate::records::list_view;
use crate::types::{CollectionItem, CollectionItemView};
use vstd::prelude::*;

verus! {

/// How many items one batch is asked to hold.
pub const PAGE_SIZE: u64 = 20;

/// What is sent to ask for the next batch.
#[derive(Clone, Debug, PartialEq, Eq)]
pub struct CollectionItemsRequestBody {
    pub fan_id: u64,
    pub older_than_token: String,
    pub count: u64,
}

/// The mathematical value of a request.
pub struct RequestView {
    pub fan_id: u64,
    pub older_than_token: Seq<char>,
    pub count: u64,
}

impl View for CollectionItemsRequestBody {
    type V = RequestView;

    open spec fn view(&self) -> RequestView {
        RequestView {
            fan_id: self.fan_id,
            older_than_token: self.older_than_token@,
            count: self.count,
        }
    }
}

/// How far the gathering has come.
#[derive(Clone, Copy, Debug, PartialEq, Eq, Structural)]
pub enum SyncPhase {
    /// The collection page has not been read yet.
    Bootstrapping,
    /// A batch has been asked for.
    Paging,
    /// A batch has said that no more are left.
    Done,
}

/// The state of the gathering, as a mathematical value.
pub struct SyncState {
    pub phase: SyncPhase,
    pub fan_id: u64,
    /// The token of the batch that was asked for last.
    pub older_than_token: Seq<char>,
    /// The items gathered so far, in the order of their arrival.
    pub items: Seq<CollectionItemView>,
}

/// The state before anything has arrived.
pub open spec fn sync_start() -> SyncState {
    SyncState {
        phase: SyncPhase::Bootstrapping,
        fan_id: 0,
        older_than_token: Seq::empty(),
        items: Seq::empty(),
    }
}

/// The request for the batch behind a token.
pub open spec fn request_for(fan_id: u64, token: Seq<char>) -> RequestView {
    RequestView { fan_id, older_than_token: token, count: PAGE_SIZE }
}

/// What follows the collection page: its items are the first, and the first
/// batch is asked for. A page that arrives at any other time is left aside.
pub open spec fn after_bootstrap(state: SyncState, page: CollectionPageDataView) -> (
    SyncState,
    Option<RequestView>,
) {
    if state.phase == SyncPhase::Bootstrapping {
        (
            SyncState {
                phase: SyncPhase::Paging,
                fan_id: page.fan_id,
                older_than_token: page.last_token,
                items: page.collection_items,
            },
            Some(request_for(page.fan_id, page.last_token)),
        )
    } else {
        (state, None)
    }
}

/// What follows a batch: its items come behind those gathered before; where
/// it says that more are left, the next batch is asked for with its token,
/// else the gathering is done. A batch that was not asked for is left aside.
pub open spec fn after_batch(state: SyncState, batch: CollectionJSONView) -> (
    SyncState,
    Option<RequestView>,
) {
    if state.phase == SyncPhase::Paging {
        let items = state.items + batch.collection_items;
        if batch.more_available {
            (
                SyncState { older_than_token: batch.last_token, items, ..state },
                Some(request_for(state.fan_id, batch.last_token)),
            )
        } else {
            (SyncState { phase: SyncPhase::Done, items, ..state }, None)
        }
    } else {
        (state, None)
    }
}

/// The state after a row of batches.
pub open spec fn after_batches(state: SyncState, batches: Seq<CollectionJSONView>) -> SyncState
    decreases batches.len(),
{
    if batches.len() == 0 {
        state
    } else {
        after_batch(after_batches(state, batches.drop_last()), batches.last()).0
    }
}

/// How many requests a row of batches is answered with.
pub open spec fn requests_after(state: SyncState, batches: Seq<CollectionJSONView>) -> nat
    decreases batches.len(),
{
    if batches.len() == 0 {
        0
    } else {
        let before = after_batches(state, batches.drop_last());
        requests_after(state, batches.drop_last()) + if after_batch(before, batches.last()).1
            is Some {
            1nat
        } else {
            0nat
        }
    }
}

/// The items of a row of batches, one batch behind the other.
pub open spec fn items_of(batches: Seq<CollectionJSONView>) -> Seq<CollectionItemView>
    decreases batches.len(),
{
    if batches.len() == 0 {
        Seq::empty()
    } else {
        items_of(batches.drop_last()) + batches.last().collection_items
    }
}

/// How many items a row of batches holds.
pub open spec fn item_count(batches: Seq<CollectionJSONView>) -> nat
    decreases batches.len(),
{
    if batches.len() == 0 {
        0
    } else {
        item_count(batches.drop_last()) + batches.last().collection_items.len()
    }
}

/// Whether each batch but the last says that more are left, and the last
/// that none are.
pub open spec fn ends_with_last(batches: Seq<CollectionJSONView>) -> bool {
    &&& batches.len() > 0
    &&& !batches.last().more_available
    &&& forall|i: int| 0 <= i < batches.len() - 1 ==> (#[trigger] batches[i]).more_available
}

/// The items of a row of batches are as many as the batches hold together.
pub proof fn lemma_item_count(batches: Seq<CollectionJSONView>)
    ensures
        items_of(batches).len() == item_count(batches),
    decreases batches.len(),
{
    if batches.len() > 0 {
        lemma_item_count(batches.drop_last());
    }
}

/// While every batch says that more are left, the gathering goes on: the
/// items pile up in order, and each batch is answered with a request.
pub proof fn lemma_paging_goes_on(state: SyncState, batches: Seq<CollectionJSONView>)
    requires
        state.phase == SyncPhase::Paging,
        forall|i: int| 0 <= i < batches.len() ==> (#[trigger] batches[i]).more_available,
    ensures
        after_batches(state, batches).phase == SyncPhase::Paging,
        after_batches(state, batches).fan_id == state.fan_id,
        after_batches(state, batches).items == state.items + items_of(batches),
        requests_after(state, batches) == batches.len(),
    decreases batches.len(),
{
    if batches.len() == 0 {
        assert(state.items + items_of(batches) =~= state.items);
    } else {
        let front = batches.drop_last();
        assert forall|i: int| 0 <= i < front.len() implies (#[trigger] front[i]).more_available by {
            assert(front[i] == batches[i]);
        }
        lemma_paging_goes_on(state, front);
        assert(batches.last() == batches[batches.len() - 1]);
        assert(state.items + items_of(front) + batches.last().collection_items =~= state.items
            + items_of(batches));
    }
}

/// Where the last of a row of batches is the first to say that none are
/// left, the gathering ends with it: the items are those of the collection
/// page and of every batch, in order; there are as many as all of them hold
/// together; and every batch but the last was answered with a request.
pub proof fn lemma_pagination_ends(state: SyncState, batches: Seq<CollectionJSONView>)
    requires
        state.phase == SyncPhase::Paging,
        ends_with_last(batches),
    ensures
        after_batches(state, batches).phase == SyncPhase::Done,
        after_batches(state, batches).items == state.items + items_of(batches),
        after_batches(state, batches).items.len() == state.items.len() + item_count(batches),
        requests_after(state, batches) == batches.len() - 1,
{
    let front = batches.drop_last();
    assert forall|i: int| 0 <= i < front.len() implies (#[trigger] front[i]).more_available by {
        assert(front[i] == batches[i]);
    }
    lemma_paging_goes_on(state, front);
    lemma_item_count(batches);
    assert(state.items + items_of(front) + batches.last().collection_items =~= state.items
        + items_of(batches));
}

/// Once the gathering is done, whatever arrives changes nothing and is
/// answered with no request.
pub proof fn lemma_done_stays_done(state: SyncState, batches: Seq<CollectionJSONView>)
    requires
        state.phase == SyncPhase::Done,
    ensures
        after_batches(state, batches) == state,
        requests_after(state, batches) == 0,
    decreases batches.len(),
{
    if batches.len() > 0 {
        lemma_done_stays_done(state, batches.drop_last());
    }
}

/// The gathering of a collection.
pub struct Synchronizer {
    phase: SyncPhase,
    fan_id: u64,
    older_than_token: String,
    items: Vec<CollectionItem>,
}

impl View for Synchronizer {
    type V = SyncState;

    closed spec fn view(&self) -> SyncState {
        SyncState {
            phase: self.phase,
            fan_id: self.fan_id,
            older_than_token: self.older_than_token@,
            items: list_view(self.items@),
        }
    }
}

impl Synchronizer {
    /// A gathering that waits for the collection page.
    pub fn new() -> (start: Synchronizer)
        ensures
            start@ == sync_start(),
    {
        let start = Synchronizer {
            phase: SyncPhase::Bootstrapping,
            fan_id: 0,
            older_than_token: String::new(),
            items: Vec::new(),
        };
        assert(list_view(start.items@) =~= Seq::<CollectionItemView>::empty());
        start
    }

    /// The request for the batch behind the token at hand.
    fn request(&self) -> (body: CollectionItemsRequestBody)
        ensures
            body@ == request_for(self@.fan_id, self@.older_than_token),
    {
        CollectionItemsRequestBody {
            fan_id: self.fan_id,
            older_than_token: self.older_than_token.clone(),
            count: PAGE_SIZE,
        }
    }

    /// Takes in the collection page and asks for the first batch.
    pub fn bootstrap(self, page: CollectionPageData) -> (next: (
        Synchronizer,
        Option<CollectionItemsRequestBody>,
    ))
        ensures
            next.0@ == after_bootstrap(self@, page@).0,
            match next.1 {
                Some(body) => after_bootstrap(self@, page@).1 == Some(body@),
                None => after_bootstrap(self@, page@).1 is None,
            },
    {
        match self.phase {
            SyncPhase::Bootstrapping => {
                let next = Synchronizer {
                    phase: SyncPhase::Paging,
                    fan_id: page.fan_id,
                    older_than_token: page.last_token,
                    items: page.collection_items,
                };
                let body = next.request();
                (next, Some(body))
            },
            _ => (self, None),
        }
    }

    /// Takes in a batch, and asks for the next one where the batch says that
    /// more are left.
    pub fn accept(self, batch: CollectionJSON) -> (next: (
        Synchronizer,
        Option<CollectionItemsRequestBody>,
    ))
        ensures
            next.0@ == after_batch(self@, batch@).0,
            match next.1 {
                Some(body) => after_batch(self@, batch@).1 == Some(body@),
                None => after_batch(self@, batch@).1 is None,
            },
    {
        match self.phase {
            SyncPhase::Paging => {
                let ghost before = list_view(self.items@);
                let ghost added = list_view(batch.collection_items@);
                let mut items = self.items;
                let mut arrived = batch.collection_items;
                items.append(&mut arrived);
                assert(list_view(items@) =~= before + added);
                if batch.more_available {
                    let next = Synchronizer {
                        phase: SyncPhase::Paging,
                        fan_id: self.fan_id,
                        older_than_token: batch.last_token,
                        items,
                    };
                    let body = next.request();
                    (next, Some(body))
                } else {
                    let next = Synchronizer {
                        phase: SyncPhase::Done,
                        fan_id: self.fan_id,
                        older_than_token: self.older_than_token,
                        items,
                    };
                    (next, None)
                }
            },
            _ => (self, None),
        }
    }

    /// Whether a batch has said that no more are left.
    pub fn is_done(&self) -> (done: bool)
        ensures
            done == (self@.phase == SyncPhase::Done),
    {
        match self.phase {
            SyncPhase::Done => true,
            _ => false,
        }
    }

    /// The items gathered so far, in the order of their arrival.
    pub fn into_items(self) -> (items: Vec<CollectionItem>)
        ensures
            list_view(items@) == self@.items,
    {
        self.items
    }
}

} // verus!
