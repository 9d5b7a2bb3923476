//! The persisted state of the contract: the id counter, the open offers, the
//! archive of settled offers and the pending-match slot.
use crate::msg::{offers_view, Custody, Offer, OfferView};
use vstd::prelude::*;

verus! {

/// Everything the contract keeps between invocations.
#[derive(Clone, Debug, PartialEq, Eq)]
pub struct ContractState {
    /// How makers' coins are held until settlement.
    pub custody: Custody,
    /// The last id handed out; `None` before the first offer.
    pub offer_id_counter: Option<u64>,
    /// Offers not yet settled, ascending by id.
    pub offers: Vec<Offer>,
    /// Settled offers, in the order they were settled.
    pub fulfilled_offers: Vec<Offer>,
    /// The offer whose taker payment awaits its acknowledgment.
    pub pending_match: Option<u64>,
}

/// What a [`ContractState`] stands for.
pub struct StateView {
    pub custody: Custody,
    pub counter: Option<u64>,
    pub offers: Seq<OfferView>,
    pub fulfilled: Seq<OfferView>,
    pub pending: Option<u64>,
}

impl View for ContractState {
    type V = StateView;

    open spec fn view(&self) -> StateView {
        StateView {
            custody: self.custody,
            counter: self.offer_id_counter,
            offers: offers_view(self.offers@),
            fulfilled: offers_view(self.fulfilled_offers@),
            pending: self.pending_match,
        }
    }
}

/// The last id handed out, zero before the first.
pub open spec fn last_id(counter: Option<u64>) -> nat {
    match counter {
        Some(c) => c as nat,
        None => 0,
    }
}

/// Ids ascend strictly along the sequence.
pub open spec fn ascending(s: Seq<OfferView>) -> bool {
    forall|i: int, j: int| 0 <= i < j < s.len() ==> s[i].id < s[j].id
}

/// No id occurs twice in the sequence.
pub open spec fn unique_ids(s: Seq<OfferView>) -> bool {
    forall|i: int, j: int| 0 <= i < s.len() && 0 <= j < s.len() && i != j ==> s[i].id != s[j].id
}

/// Every id is one that the counter has handed out.
pub open spec fn ids_issued(s: Seq<OfferView>, counter: Option<u64>) -> bool {
    forall|i: int| 0 <= i < s.len() ==> 1 <= #[trigger] s[i].id <= last_id(counter)
}

/// The state's invariant: open offers ascend by id, archived ids are unique,
/// no id is both open and archived, every id was issued by the counter, and
/// every archived offer has its taker.
pub open spec fn wf(s: StateView) -> bool {
    &&& ascending(s.offers)
    &&& unique_ids(s.fulfilled)
    &&& forall|i: int, j: int|
        0 <= i < s.offers.len() && 0 <= j < s.fulfilled.len() ==> s.offers[i].id
            != s.fulfilled[j].id
    &&& ids_issued(s.offers, s.counter)
    &&& ids_issued(s.fulfilled, s.counter)
    &&& forall|j: int| 0 <= j < s.fulfilled.len() ==> (#[trigger] s.fulfilled[j]).taker is Some
}

/// The first position of an offer with `id`, or -1 where there is none.
pub open spec fn index_of(s: Seq<OfferView>, id: u64) -> int {
    if exists|i: int| is_first(s, id, i) {
        choose|i: int| is_first(s, id, i)
    } else {
        -1
    }
}

/// Position `i` holds `id` and no earlier position does.
pub open spec fn is_first(s: Seq<OfferView>, id: u64, i: int) -> bool {
    &&& 0 <= i < s.len()
    &&& s[i].id == id
    &&& forall|j: int| 0 <= j < i ==> s[j].id != id
}

/// The offer with `id`, if the sequence holds one.
pub open spec fn lookup(s: Seq<OfferView>, id: u64) -> Option<OfferView> {
    if index_of(s, id) >= 0 {
        Some(s[index_of(s, id)])
    } else {
        None
    }
}

/// The first position holding an id is where `index_of` points.
pub proof fn lemma_index_of_first(s: Seq<OfferView>, id: u64, k: int)
    requires
        is_first(s, id, k),
    ensures
        index_of(s, id) == k,
{
    let i = index_of(s, id);
    assert(is_first(s, id, i));
    if i < k {
        assert(s[i].id != id);
    } else if k < i {
        assert(s[k].id != id);
    }
}

/// Where no position holds `id`, `index_of` says so.
pub proof fn lemma_index_of_absent(s: Seq<OfferView>, id: u64)
    requires
        forall|j: int| 0 <= j < s.len() ==> s[j].id != id,
    ensures
        index_of(s, id) == -1,
{
}

/// Finds the first position of an offer with `id`.
pub fn position(offers: &Vec<Offer>, id: u64) -> (r: Option<usize>)
    ensures
        match r {
            Some(i) => i as int == index_of(offers_view(offers@), id) && i < offers@.len(),
            None => index_of(offers_view(offers@), id) == -1,
        },
{
    let ghost s = offers_view(offers@);
    let mut i: usize = 0;
    while i < offers.len()
        invariant
            s == offers_view(offers@),
            i <= offers@.len(),
            forall|k: int| 0 <= k < i ==> s[k].id != id,
        decreases offers@.len() - i,
    {
        if offers[i].id == id {
            proof { lemma_index_of_first(s, id, i as int); }
            return Some(i);
        }
        i = i + 1;
    }
    proof { lemma_index_of_absent(s, id); }
    None
}

} // verus!
