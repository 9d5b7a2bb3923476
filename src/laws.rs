//! Properties of the contract that relate several commands or hold of every
//! state, proved over the transitions that the entry points implement.
use crate::contract::{execute_spec, reply_spec};
use crate::error::ContractError;
use crate::execute::{
    fulfill_offer_spec, lemma_archive_wf, lemma_make_offer_wf, lemma_set_taker_wf,
    make_offer_spec, maker_funds_ok, open_index, provide_taker_spec,
};
use crate::msg::{CoinView, ExecuteMsg, OfferView, Reply};
use crate::query::{beyond, beyond_pred, offers_beyond, page};
use crate::state::{
    ascending, index_of, is_first, last_id, lemma_index_of_first, lookup, wf, StateView,
};
use vstd::prelude::*;

verus! {

/// Every command and every reply keeps the state's invariant, and none moves
/// the id counter back.
pub proof fn law_commands_keep_invariant(
    s: StateView,
    contract: Seq<char>,
    sender: Seq<char>,
    funds: Seq<CoinView>,
    msg: ExecuteMsg,
    reply: Reply,
)
    requires
        wf(s),
    ensures
        wf(execute_spec(s, contract, sender, funds, msg).0),
        last_id(execute_spec(s, contract, sender, funds, msg).0.counter) >= last_id(s.counter),
        wf(reply_spec(s, contract, reply).0),
        reply_spec(s, contract, reply).0.counter == s.counter,
{
    match msg {
        ExecuteMsg::MakeOffer { maker_coin, taker_coin } => {
            lemma_make_offer_wf(s, contract, sender, funds, maker_coin@, taker_coin@);
        },
        ExecuteMsg::OfferTaker { offer_id } => {
            let i = open_index(s, offer_id@);
            if 0 <= i && s.offers[i].taker is None {
                lemma_set_taker_wf(s, i, Some(sender), Some(s.offers[i].id));
            }
        },
        ExecuteMsg::FulfillOffer { offer_id } => {
            let i = open_index(s, offer_id@);
            if 0 <= i && s.offers[i].taker is Some {
                lemma_archive_wf(s, i);
            }
        },
    }
    if let Some(id) = s.pending {
        let i = index_of(s.offers, id);
        if i >= 0 && s.offers[i].taker is Some {
            lemma_set_taker_wf(s, i, None, None);
        }
    }
}

/// A created offer receives the id after the last one handed out, which
/// exceeds the id of every offer open or archived before it; the counter
/// then stands at that id, so no later offer can receive it again.
pub proof fn law_created_id_is_fresh(
    s: StateView,
    contract: Seq<char>,
    sender: Seq<char>,
    funds: Seq<CoinView>,
    maker_coin: CoinView,
    taker_coin: CoinView,
)
    requires
        wf(s),
        make_offer_spec(s, contract, sender, funds, maker_coin, taker_coin).1 is Ok,
    ensures
        ({
            let t = make_offer_spec(s, contract, sender, funds, maker_coin, taker_coin).0;
            let id = t.offers.last().id;
            &&& t.offers.len() == s.offers.len() + 1
            &&& id == last_id(s.counter) + 1
            &&& last_id(t.counter) == id
            &&& forall|i: int| 0 <= i < s.offers.len() ==> s.offers[i].id < id
            &&& forall|j: int| 0 <= j < s.fulfilled.len() ==> s.fulfilled[j].id < id
        }),
{
    let t = make_offer_spec(s, contract, sender, funds, maker_coin, taker_coin).0;
    assert forall|i: int| 0 <= i < s.offers.len() implies s.offers[i].id < t.offers.last().id by {
        assert(1 <= s.offers[i].id <= last_id(s.counter));
    }
    assert forall|j: int| 0 <= j < s.fulfilled.len() implies s.fulfilled[j].id
        < t.offers.last().id by {
        assert(1 <= s.fulfilled[j].id <= last_id(s.counter));
    }
}

/// Binding fails with `NoOfferFound`, whatever coins are attached and
/// without changing the state, where the addressed offer is not open or
/// already has a taker.
pub proof fn law_bind_needs_open_offer(
    s: StateView,
    contract: Seq<char>,
    sender: Seq<char>,
    funds: Seq<CoinView>,
    offer_id: Seq<char>,
)
    requires
        open_index(s, offer_id) < 0 || s.offers[open_index(s, offer_id)].taker is Some,
    ensures
        provide_taker_spec(s, contract, sender, funds, offer_id) == (
            s,
            Err::<crate::response::ResponseView, _>(ContractError::NoOfferFound {}),
        ),
{
}

/// Of two binds of one offer, the second fails with `NoOfferFound`: a
/// matched offer cannot be bound again.
pub proof fn law_second_bind_fails(
    s: StateView,
    contract: Seq<char>,
    first_taker: Seq<char>,
    first_funds: Seq<CoinView>,
    second_taker: Seq<char>,
    second_funds: Seq<CoinView>,
    offer_id: Seq<char>,
)
    requires
        provide_taker_spec(s, contract, first_taker, first_funds, offer_id).1 is Ok,
    ensures
        ({
            let t = provide_taker_spec(s, contract, first_taker, first_funds, offer_id).0;
            provide_taker_spec(t, contract, second_taker, second_funds, offer_id) == (
                t,
                Err::<crate::response::ResponseView, _>(ContractError::NoOfferFound {}),
            )
        }),
{
    let t = provide_taker_spec(s, contract, first_taker, first_funds, offer_id).0;
    let i = open_index(s, offer_id);
    let id = crate::decimal::parse_id(offer_id)->0;
    assert(is_first(s.offers, id, i));
    assert forall|j: int| 0 <= j < i implies t.offers[j].id != id by {
        assert(t.offers[j] == s.offers[j]);
    }
    assert(is_first(t.offers, id, i));
    lemma_index_of_first(t.offers, id, i);
}

/// Creating an offer with attached coins that do not suit the custody
/// strategy fails with `InaccurateFunds` and stores nothing.
pub proof fn law_make_offer_needs_exact_funds(
    s: StateView,
    contract: Seq<char>,
    sender: Seq<char>,
    funds: Seq<CoinView>,
    maker_coin: CoinView,
    taker_coin: CoinView,
)
    requires
        !maker_funds_ok(s.custody, funds, maker_coin),
    ensures
        make_offer_spec(s, contract, sender, funds, maker_coin, taker_coin) == (
            s,
            Err::<crate::response::ResponseView, _>(ContractError::InaccurateFunds {}),
        ),
{
}

/// Settlement invoked by anyone but the contract itself fails with
/// `Unauthorized`, whatever state the offer is in, and changes nothing.
pub proof fn law_settlement_is_internal(
    s: StateView,
    contract: Seq<char>,
    sender: Seq<char>,
    offer_id: Seq<char>,
)
    requires
        sender != contract,
    ensures
        fulfill_offer_spec(s, contract, sender, offer_id) == (
            s,
            Err::<crate::response::ResponseView, _>(ContractError::Unauthorized {}),
        ),
{
}

/// Appending to a sequence keeps the first position of every id it held.
proof fn lemma_lookup_push(f: Seq<OfferView>, x: OfferView, id: u64)
    requires
        lookup(f, id) is Some,
    ensures
        lookup(f.push(x), id) == lookup(f, id),
{
    let k = index_of(f, id);
    assert(is_first(f, id, k));
    assert forall|j: int| 0 <= j < k implies f.push(x)[j].id != id by {
        assert(f.push(x)[j] == f[j]);
    }
    assert(is_first(f.push(x), id, k));
    lemma_index_of_first(f.push(x), id, k);
}

/// An archived record never changes: once the archive answers for an id,
/// every later command and reply leaves that answer as it was.
pub proof fn law_archive_is_stable(
    s: StateView,
    contract: Seq<char>,
    sender: Seq<char>,
    funds: Seq<CoinView>,
    msg: ExecuteMsg,
    reply: Reply,
    id: u64,
)
    requires
        lookup(s.fulfilled, id) is Some,
    ensures
        lookup(execute_spec(s, contract, sender, funds, msg).0.fulfilled, id) == lookup(
            s.fulfilled,
            id,
        ),
        lookup(reply_spec(s, contract, reply).0.fulfilled, id) == lookup(s.fulfilled, id),
{
    if let ExecuteMsg::FulfillOffer { offer_id } = msg {
        let i = open_index(s, offer_id@);
        if sender == contract && 0 <= i {
            lemma_lookup_push(s.fulfilled, s.offers[i], id);
        }
    }
}

/// Filtering keeps ascending ids ascending.
proof fn lemma_filter_ascending(s: Seq<OfferView>, start_after: Option<u64>)
    requires
        ascending(s),
    ensures
        ascending(offers_beyond(s, start_after)),
    decreases s.len(),
{
    reveal(Seq::filter);
    if s.len() > 0 {
        let p = beyond_pred(start_after);
        let rest = s.drop_last();
        assert(ascending(rest));
        lemma_filter_ascending(rest, start_after);
        let a = rest.filter(p);
        if p(s.last()) {
            assert forall|k: int| 0 <= k < a.len() implies a[k].id < s.last().id by {
                rest.lemma_filter_contains_rev(p, a[k]);
                let m = choose|m: int| 0 <= m < rest.len() && rest[m] == a[k];
                assert(s[m] == a[k]);
            }
        }
    }
}

/// Following pages never repeat an offer: every offer on the page that
/// starts after the last id of a page has a greater id than every offer on
/// that page.
pub proof fn law_pages_do_not_overlap(
    s: StateView,
    start_after: Option<u64>,
    limit: nat,
    next_limit: nat,
)
    requires
        wf(s),
        page(s.offers, start_after, limit).len() > 0,
    ensures
        ({
            let first = page(s.offers, start_after, limit);
            let next = page(s.offers, Some(first.last().id), next_limit);
            forall|i: int, j: int|
                0 <= i < first.len() && 0 <= j < next.len() ==> first[i].id < next[j].id
        }),
{
    let first = page(s.offers, start_after, limit);
    let last = first.last().id;
    let next = page(s.offers, Some(last), next_limit);
    lemma_filter_ascending(s.offers, start_after);
    let f = offers_beyond(s.offers, Some(last));
    let p = beyond_pred(Some(last));
    assert forall|i: int, j: int| 0 <= i < first.len() && 0 <= j < next.len() implies first[i].id
        < next[j].id by {
        assert(next[j] == f[j]);
        s.offers.lemma_filter_pred(p, j);
        assert(beyond(Some(last), f[j]));
        if i < first.len() - 1 {
            assert(first[i].id < last);
        }
    }
}

/// An offer is settled at most once: after a settlement succeeds, settling
/// the same offer again fails with `NoOfferFound`, so neither leg, nor the
/// maker's grant, is exercised twice.
pub proof fn law_settlement_happens_once(
    s: StateView,
    contract: Seq<char>,
    sender: Seq<char>,
    later_sender: Seq<char>,
    offer_id: Seq<char>,
)
    requires
        wf(s),
        fulfill_offer_spec(s, contract, sender, offer_id).1 is Ok,
        later_sender == contract,
    ensures
        ({
            let t = fulfill_offer_spec(s, contract, sender, offer_id).0;
            fulfill_offer_spec(t, contract, later_sender, offer_id) == (
                t,
                Err::<crate::response::ResponseView, _>(ContractError::NoOfferFound {}),
            )
        }),
{
    let t = fulfill_offer_spec(s, contract, sender, offer_id).0;
    let i = open_index(s, offer_id);
    let id = crate::decimal::parse_id(offer_id)->0;
    assert(is_first(s.offers, id, i));
    assert forall|k: int| 0 <= k < t.offers.len() implies t.offers[k].id != id by {
        let k2 = if k < i { k } else { k + 1 };
        assert(t.offers[k] == s.offers[k2]);
        if k2 < i {
            assert(s.offers[k2].id < s.offers[i].id);
        } else {
            assert(s.offers[i].id < s.offers[k2].id);
        }
    }
    crate::state::lemma_index_of_absent(t.offers, id);
}

/// Every acknowledgment that the contract accepts, success or failure,
/// leaves no match pending.
pub proof fn law_acknowledgment_clears_pending(s: StateView, contract: Seq<char>, reply: Reply)
    requires
        reply_spec(s, contract, reply).1 is Ok,
    ensures
        reply_spec(s, contract, reply).0.pending is None,
{
}

} // verus!
