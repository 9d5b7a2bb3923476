//! The read-only surface: pages of open offers and the archive.
use crate::msg::{offers_view, opt_offer_view, Offer, OfferView};
use crate::state::{lookup, position, ContractState};
use vstd::prelude::*;

verus! {

/// The page size when a query names none.
pub const DEFAULT_LIMIT: u32 = 10;

/// Whether an offer lies beyond the key a page starts after.
pub open spec fn beyond(start_after: Option<u64>, o: OfferView) -> bool {
    match start_after {
        Some(a) => o.id > a,
        None => true,
    }
}

/// [`beyond`] as a predicate.
pub open spec fn beyond_pred(start_after: Option<u64>) -> spec_fn(OfferView) -> bool {
    |o: OfferView| beyond(start_after, o)
}

/// The offers beyond `start_after`, in their order.
pub open spec fn offers_beyond(offers: Seq<OfferView>, start_after: Option<u64>) -> Seq<OfferView> {
    offers.filter(beyond_pred(start_after))
}

/// The first `limit` of the offers beyond `start_after`, or all of them
/// where there are fewer.
pub open spec fn page(offers: Seq<OfferView>, start_after: Option<u64>, limit: nat) -> Seq<OfferView> {
    let f = offers_beyond(offers, start_after);
    if f.len() <= limit {
        f
    } else {
        f.take(limit as int)
    }
}

/// The page size that a query asks for.
pub open spec fn page_limit(limit: Option<u32>) -> nat {
    match limit {
        Some(l) => l as nat,
        None => DEFAULT_LIMIT as nat,
    }
}

/// What a sequence keeps of a longer one: its beginning.
pub open spec fn is_prefix(a: Seq<OfferView>, b: Seq<OfferView>) -> bool {
    a.len() <= b.len() && a == b.take(a.len() as int)
}

/// Filtering a beginning of a sequence gives a beginning of the filtered sequence.
pub proof fn lemma_filter_prefix(s: Seq<OfferView>, start_after: Option<u64>, k: int)
    requires
        0 <= k <= s.len(),
    ensures
        is_prefix(offers_beyond(s.take(k), start_after), offers_beyond(s, start_after)),
    decreases s.len() - k,
{
    let p = beyond_pred(start_after);
    if k == s.len() {
        assert(s.take(k) =~= s);
        let c = offers_beyond(s, start_after);
        assert(c.take(c.len() as int) =~= c);
    } else {
        lemma_filter_prefix(s, start_after, k + 1);
        let longer = s.take(k + 1);
        assert(longer.drop_last() =~= s.take(k));
        reveal(Seq::filter);
        let a = s.take(k).filter(p);
        let b = longer.filter(p);
        let c = s.filter(p);
        assert(b == if p(longer.last()) { a.push(longer.last()) } else { a });
        assert(a =~= b.take(a.len() as int));
        assert(a =~= c.take(a.len() as int));
    }
}

/// Lists open offers with an id above `start_after`, ascending, at most
/// `limit` of them (ten by default). The scan stops once the page is full.
pub fn query_all_offers(state: &ContractState, start_after: Option<u64>, limit: Option<u32>) -> (r:
    Vec<Offer>)
    ensures
        offers_view(r@) == page(state@.offers, start_after, page_limit(limit)),
{
    let size: usize = match limit {
        Some(l) => l as usize,
        None => DEFAULT_LIMIT as usize,
    };
    assert(size as nat == page_limit(limit));
    let ghost s = state@.offers;
    let ghost p = beyond_pred(start_after);
    let mut out: Vec<Offer> = Vec::new();
    let mut i: usize = 0;
    while i < state.offers.len() && out.len() < size
        invariant
            s == state@.offers,
            p == beyond_pred(start_after),
            s.len() == state.offers@.len(),
            i <= s.len(),
            offers_view(out@) == page(s.take(i as int), start_after, size as nat),
        decreases s.len() - i,
    {
        let o = &state.offers[i];
        let keep = match start_after {
            Some(a) => o.id > a,
            None => true,
        };
        proof {
            reveal(Seq::filter);
            let a = s.take(i as int).filter(p);
            assert(s.take(i + 1).drop_last() =~= s.take(i as int));
            assert(s.take(i + 1).last() == o@);
            assert(s.take(i + 1).filter(p) == if p(o@) { a.push(o@) } else { a });
            assert(keep == p(o@));
        }
        if keep {
            out.push(o.duplicate());
        }
        i = i + 1;
        proof {
            assert(offers_view(out@) =~= page(s.take(i as int), start_after, size as nat));
        }
    }
    proof {
        lemma_filter_prefix(s, start_after, i as int);
        if i == s.len() {
            assert(s.take(i as int) =~= s);
        } else {
            let a = offers_beyond(s.take(i as int), start_after);
            let c = offers_beyond(s, start_after);
            assert(a.len() >= size);
            assert(c.take(size as int) =~= a.take(size as int));
        }
    }
    out
}

/// The archived record of the settled offer with `offer_id`, if there is one.
pub fn query_fulfilled_offers(state: &ContractState, offer_id: u64) -> (r: Option<Offer>)
    ensures
        opt_offer_view(r) == lookup(state@.fulfilled, offer_id),
{
    match position(&state.fulfilled_offers, offer_id) {
        Some(i) => Some(state.fulfilled_offers[i].duplicate()),
        None => None,
    }
}

} // verus!
