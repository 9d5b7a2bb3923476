//! The offer lifecycle: create, bind a taker, settle, and the deferred
//! commit that links binding to settlement.
//!
//! Each command is stated as a transition from the state before to the state
//! after and the invocation's result; a failed command leaves the state as it
//! was, so the ledger's rollback of the invocation loses nothing.
use crate::decimal::{dec, decimal_string, parse_decimal, parse_id};
use crate::encode::{
    encode_exec_send, encode_send_grant, exec_send_bytes, send_grant_bytes, EXEC_TYPE_URL,
    GRANT_TYPE_URL,
};
use crate::error::ContractError;
use crate::msg::{coins_view, Coin, CoinView, Custody, Env, MessageInfo, Offer, OfferView, Reply};
use crate::response::{
    plain, result_view, CosmosMsg, CosmosMsgView, Response, ResponseView, SubMsgView,
};
use crate::state::{index_of, last_id, position, wf, ContractState, StateView};
use vstd::prelude::*;

verus! {

/// The reply id under which the taker's payment into custody is acknowledged.
pub const TAKER_MATCH_REPLY_ID: u64 = 1;

/// The result of a command: the state after it, and what it returns.
pub type Transition = (StateView, Result<ResponseView, ContractError>);

/// Whether the coins attached to a new offer suit the custody strategy:
/// exactly the offered coin under escrow, nothing under a delegated grant.
pub open spec fn maker_funds_ok(custody: Custody, funds: Seq<CoinView>, maker_coin: CoinView) -> bool {
    match custody {
        Custody::Escrow => funds == seq![maker_coin],
        Custody::DelegatedGrant => funds.len() == 0,
    }
}

/// The id that the next offer receives.
pub open spec fn next_id(counter: Option<u64>) -> nat {
    last_id(counter) + 1
}

/// The messages that establish custody of the maker's coin when an offer is
/// made: under a delegated grant, a request that the maker grant the contract
/// a send authorization of exactly that coin.
pub open spec fn custody_messages(
    custody: Custody,
    contract: Seq<char>,
    maker: Seq<char>,
    maker_coin: CoinView,
) -> Seq<SubMsgView> {
    match custody {
        Custody::Escrow => seq![],
        Custody::DelegatedGrant => seq![
            plain(
                CosmosMsgView::Stargate {
                    type_url: GRANT_TYPE_URL@,
                    value: send_grant_bytes(maker, contract, maker_coin.denom, maker_coin.amount),
                },
            ),
        ],
    }
}

/// The attributes recorded when offer `id` is made.
pub open spec fn make_offer_attributes(
    custody: Custody,
    id: nat,
    maker: Seq<char>,
    maker_coin: CoinView,
    taker_coin: CoinView,
) -> Seq<(Seq<char>, Seq<char>)> {
    let grant: Seq<(Seq<char>, Seq<char>)> = match custody {
        Custody::Escrow => seq![],
        Custody::DelegatedGrant => seq![("authorization_granted"@, maker)],
    };
    seq![("offer_id"@, dec(id))] + grant + seq![
        ("maker_coin"@, maker_coin.denom),
        ("taker_coin"@, taker_coin.denom),
    ]
}

/// Creating an offer: with the right attached coins and an id left, the
/// counter advances by one and the new offer, open and without taker, is
/// appended under the new id.
pub open spec fn make_offer_spec(
    s: StateView,
    contract: Seq<char>,
    sender: Seq<char>,
    funds: Seq<CoinView>,
    maker_coin: CoinView,
    taker_coin: CoinView,
) -> Transition {
    if !maker_funds_ok(s.custody, funds, maker_coin) {
        (s, Err(ContractError::InaccurateFunds {}))
    } else if s.counter == Some(u64::MAX) {
        (s, Err(ContractError::OfferIdExhausted {}))
    } else {
        let id = next_id(s.counter);
        let offer = OfferView { id: id as u64, maker: sender, taker: None, maker_coin, taker_coin };
        (
            StateView { counter: Some(id as u64), offers: s.offers.push(offer), ..s },
            Ok(
                ResponseView {
                    messages: custody_messages(s.custody, contract, sender, maker_coin),
                    attributes: make_offer_attributes(s.custody, id, sender, maker_coin, taker_coin),
                },
            ),
        )
    }
}

/// Creating an offer keeps the state's invariant.
pub proof fn lemma_make_offer_wf(
    s: StateView,
    contract: Seq<char>,
    sender: Seq<char>,
    funds: Seq<CoinView>,
    maker_coin: CoinView,
    taker_coin: CoinView,
)
    requires
        wf(s),
    ensures
        wf(make_offer_spec(s, contract, sender, funds, maker_coin, taker_coin).0),
{
    let t = make_offer_spec(s, contract, sender, funds, maker_coin, taker_coin).0;
    if t != s {
        let n = s.offers.len();
        assert(t.offers.len() == n + 1);
        assert forall|i: int| 0 <= i < t.offers.len() implies 1 <= #[trigger] t.offers[i].id
            <= last_id(t.counter) by {
            if i < n {
                assert(t.offers[i] == s.offers[i]);
            }
        }
        assert forall|i: int| 0 <= i < t.fulfilled.len() implies 1 <= #[trigger] t.fulfilled[i].id
            <= last_id(t.counter) by {
            assert(t.fulfilled[i] == s.fulfilled[i]);
        }
        assert forall|i: int, j: int| 0 <= i < j < t.offers.len() implies t.offers[i].id
            < t.offers[j].id by {
            assert(t.offers[i] == s.offers[i]);
            assert(1 <= s.offers[i].id <= last_id(s.counter));
            if j < n {
                assert(t.offers[j] == s.offers[j]);
            }
        }
        assert forall|i: int, j: int|
            0 <= i < t.offers.len() && 0 <= j < t.fulfilled.len() implies t.offers[i].id
            != t.fulfilled[j].id by {
            assert(1 <= s.fulfilled[j].id <= last_id(s.counter));
            if i < n {
                assert(t.offers[i] == s.offers[i]);
            }
        }
    }
}

/// Creates an offer of `maker_coin` for `taker_coin` on behalf of the sender.
pub fn make_offer(
    state: &mut ContractState,
    env: &Env,
    info: &MessageInfo,
    maker_coin: Coin,
    taker_coin: Coin,
) -> (r: Result<Response, ContractError>)
    ensures
        (final(state)@, result_view(r)) == make_offer_spec(
            old(state)@,
            env.contract_address@,
            info.sender@,
            coins_view(info.funds@),
            maker_coin@,
            taker_coin@,
        ),
        wf(old(state)@) ==> wf(final(state)@),
{
    proof {
        if wf(state@) {
            lemma_make_offer_wf(
                state@,
                env.contract_address@,
                info.sender@,
                coins_view(info.funds@),
                maker_coin@,
                taker_coin@,
            );
        }
    }
    let funds_ok = match state.custody {
        Custody::Escrow => info.funds.len() == 1 && info.funds[0].same_as(&maker_coin),
        Custody::DelegatedGrant => info.funds.len() == 0,
    };
    proof {
        let fv = coins_view(info.funds@);
        assert(fv.len() == info.funds@.len());
        if state.custody == Custody::Escrow {
            if info.funds.len() == 1 {
                assert(fv =~= seq![info.funds@[0]@]);
            }
            if fv == seq![maker_coin@] {
                assert(fv[0] == maker_coin@);
            }
        }
        assert(funds_ok == maker_funds_ok(state.custody, fv, maker_coin@));
    }
    if !funds_ok {
        return Err(ContractError::InaccurateFunds {});
    }
    let offer_id: u64 = match state.offer_id_counter {
        Some(c) => {
            if c == u64::MAX {
                return Err(ContractError::OfferIdExhausted {});
            }
            c + 1
        },
        None => 1,
    };
    let grant = state.custody == Custody::DelegatedGrant;
    let mut resp = Response::new();
    if grant {
        let value = encode_send_grant(&info.sender, &env.contract_address, &maker_coin);
        resp.add_message(CosmosMsg::Stargate { type_url: String::from_str(GRANT_TYPE_URL), value });
    }
    resp.add_attribute("offer_id", decimal_string(offer_id));
    if grant {
        resp.add_attribute("authorization_granted", info.sender.clone());
    }
    resp.add_attribute("maker_coin", maker_coin.denom.clone());
    resp.add_attribute("taker_coin", taker_coin.denom.clone());
    let offer = Offer { id: offer_id, maker: info.sender.clone(), taker: None, maker_coin, taker_coin };
    state.offer_id_counter = Some(offer_id);
    state.offers.push(offer);
    proof {
        let ghost spec_resp = make_offer_spec(
            old(state)@,
            env.contract_address@,
            info.sender@,
            coins_view(info.funds@),
            maker_coin@,
            taker_coin@,
        ).1;
        assert(resp@.messages =~= spec_resp->Ok_0.messages);
        assert(resp@.attributes =~= spec_resp->Ok_0.attributes);
        assert(state@.offers =~= old(state)@.offers.push(offer@));
    }
    Ok(resp)
}

/// The position among the open offers of the one whose id renders as
/// `offer_id`, or -1 where there is none.
pub open spec fn open_index(s: StateView, offer_id: Seq<char>) -> int {
    match parse_id(offer_id) {
        Some(id) => index_of(s.offers, id),
        None => -1,
    }
}

/// Finds the open offer addressed by `offer_id`.
fn find_open(state: &ContractState, offer_id: &String) -> (r: Option<usize>)
    ensures
        match r {
            Some(i) => i as int == open_index(state@, offer_id@) && i < state.offers@.len(),
            None => open_index(state@, offer_id@) == -1,
        },
{
    match parse_decimal(offer_id.as_str()) {
        Some(id) => position(&state.offers, id),
        None => None,
    }
}

/// Binding a taker: the offer must be open and without taker, and the
/// sender must attach exactly the asked coin. The sender becomes the taker,
/// the offer becomes the pending match, and the attached coin is sent into
/// the contract's custody with its outcome reported back.
pub open spec fn provide_taker_spec(
    s: StateView,
    contract: Seq<char>,
    sender: Seq<char>,
    funds: Seq<CoinView>,
    offer_id: Seq<char>,
) -> Transition {
    let i = open_index(s, offer_id);
    if i < 0 || s.offers[i].taker is Some {
        (s, Err(ContractError::NoOfferFound {}))
    } else if funds != seq![s.offers[i].taker_coin] {
        (s, Err(ContractError::InaccurateFunds {}))
    } else {
        let o = s.offers[i];
        (
            StateView {
                offers: s.offers.update(i, OfferView { taker: Some(sender), ..o }),
                pending: Some(o.id),
                ..s
            },
            Ok(
                ResponseView {
                    messages: seq![
                        SubMsgView {
                            msg: CosmosMsgView::BankSend { to_address: contract, amount: o.taker_coin },
                            reply_id: Some(TAKER_MATCH_REPLY_ID),
                        },
                    ],
                    attributes: seq![("taker"@, sender), ("offer_id"@, offer_id)],
                },
            ),
        )
    }
}

/// Setting the taker of an open offer keeps the state's invariant.
pub proof fn lemma_set_taker_wf(s: StateView, i: int, taker: Option<Seq<char>>, pending: Option<u64>)
    requires
        wf(s),
        0 <= i < s.offers.len(),
    ensures
        wf(
            StateView {
                offers: s.offers.update(i, OfferView { taker, ..s.offers[i] }),
                pending,
                ..s
            },
        ),
{
    let t = StateView { offers: s.offers.update(i, OfferView { taker, ..s.offers[i] }), pending, ..s };
    assert forall|k: int| 0 <= k < t.offers.len() implies t.offers[k].id == s.offers[k].id by {}
    assert forall|k: int| 0 <= k < t.offers.len() implies 1 <= #[trigger] t.offers[k].id
        <= last_id(t.counter) by {
        assert(1 <= s.offers[k].id);
    }
}

/// Binds the sender as taker of the offer addressed by `offer_id`.
pub fn provide_taker(
    state: &mut ContractState,
    env: &Env,
    info: &MessageInfo,
    offer_id: String,
) -> (r: Result<Response, ContractError>)
    ensures
        (final(state)@, result_view(r)) == provide_taker_spec(
            old(state)@,
            env.contract_address@,
            info.sender@,
            coins_view(info.funds@),
            offer_id@,
        ),
        wf(old(state)@) ==> wf(final(state)@),
{
    let i = match find_open(state, &offer_id) {
        Some(i) => i,
        None => return Err(ContractError::NoOfferFound {}),
    };
    if state.offers[i].taker.is_some() {
        return Err(ContractError::NoOfferFound {});
    }
    let funds_ok = info.funds.len() == 1 && info.funds[0].same_as(&state.offers[i].taker_coin);
    proof {
        let fv = coins_view(info.funds@);
        let want = state@.offers[i as int].taker_coin;
        assert(fv.len() == info.funds@.len());
        if info.funds.len() == 1 {
            assert(fv =~= seq![info.funds@[0]@]);
        }
        if fv == seq![want] {
            assert(fv[0] == want);
        }
        assert(funds_ok == (fv == seq![want]));
    }
    if !funds_ok {
        return Err(ContractError::InaccurateFunds {});
    }
    let mut offer = state.offers[i].duplicate();
    offer.taker = Some(info.sender.clone());
    let id = offer.id;
    let coin = offer.taker_coin.duplicate();
    proof {
        if wf(state@) {
            lemma_set_taker_wf(state@, i as int, Some(info.sender@), Some(id));
        }
    }
    state.offers.set(i, offer);
    state.pending_match = Some(id);
    let mut resp = Response::new();
    resp.add_submessage(
        CosmosMsg::BankSend { to_address: env.contract_address.clone(), amount: coin },
        TAKER_MATCH_REPLY_ID,
    );
    resp.add_attribute("taker", info.sender.clone());
    resp.add_attribute("offer_id", offer_id);
    proof {
        let ghost spec_resp = provide_taker_spec(
            old(state)@,
            env.contract_address@,
            info.sender@,
            coins_view(info.funds@),
            offer_id@,
        ).1;
        assert(resp@.messages =~= spec_resp->Ok_0.messages);
        assert(resp@.attributes =~= spec_resp->Ok_0.attributes);
        assert(state@.offers =~= old(state)@.offers.update(i as int, offer@));
    }
    Ok(resp)
}

/// The leg that moves the maker's coin to the taker: exercised through the
/// maker's grant, or paid from the contract's escrow.
pub open spec fn maker_leg(custody: Custody, contract: Seq<char>, o: OfferView, taker: Seq<char>) -> CosmosMsgView {
    match custody {
        Custody::DelegatedGrant => CosmosMsgView::Stargate {
            type_url: EXEC_TYPE_URL@,
            value: exec_send_bytes(contract, o.maker, taker, o.maker_coin.denom, o.maker_coin.amount),
        },
        Custody::Escrow => CosmosMsgView::BankSend { to_address: taker, amount: o.maker_coin },
    }
}

/// Settling an offer: only the contract itself may invoke it, on an open
/// offer that has a taker. Both legs are dispatched in one invocation, the
/// offer is archived as it stands and leaves the open offers. Where the
/// ledger then refuses a leg (the maker never granted the authorization),
/// the whole invocation is rolled back: the offer stays bound to its taker
/// and the taker's coin stays in the contract's custody.
pub open spec fn fulfill_offer_spec(
    s: StateView,
    contract: Seq<char>,
    sender: Seq<char>,
    offer_id: Seq<char>,
) -> Transition {
    let i = open_index(s, offer_id);
    if sender != contract {
        (s, Err(ContractError::Unauthorized {}))
    } else if i < 0 {
        (s, Err(ContractError::NoOfferFound {}))
    } else {
        let o = s.offers[i];
        match o.taker {
            None => (s, Err(ContractError::InvalidTaker {})),
            Some(taker) => (
                StateView { offers: s.offers.remove(i), fulfilled: s.fulfilled.push(o), ..s },
                Ok(
                    ResponseView {
                        messages: seq![
                            plain(maker_leg(s.custody, contract, o, taker)),
                            plain(CosmosMsgView::BankSend { to_address: o.maker, amount: o.taker_coin }),
                        ],
                        attributes: seq![("offer_id"@, offer_id)],
                    },
                ),
            ),
        }
    }
}

/// Moving a bound offer into the archive keeps the state's invariant.
pub proof fn lemma_archive_wf(s: StateView, i: int)
    requires
        wf(s),
        0 <= i < s.offers.len(),
        s.offers[i].taker is Some,
    ensures
        wf(StateView { offers: s.offers.remove(i), fulfilled: s.fulfilled.push(s.offers[i]), ..s }),
{
    let o = s.offers[i];
    let t = StateView { offers: s.offers.remove(i), fulfilled: s.fulfilled.push(o), ..s };
    let n = s.fulfilled.len();
    assert forall|k: int| 0 <= k < t.offers.len() implies #[trigger] t.offers[k] == (if k < i {
        s.offers[k]
    } else {
        s.offers[k + 1]
    }) by {}
    assert forall|k: int| 0 <= k < t.fulfilled.len() implies #[trigger] t.fulfilled[k] == (if k < n {
        s.fulfilled[k]
    } else {
        o
    }) by {}
    assert forall|a: int, b: int| 0 <= a < b < t.offers.len() implies t.offers[a].id
        < t.offers[b].id by {
        let a2 = if a < i { a } else { a + 1 };
        let b2 = if b < i { b } else { b + 1 };
        assert(t.offers[a] == s.offers[a2]);
        assert(t.offers[b] == s.offers[b2]);
    }
    assert forall|k: int| 0 <= k < t.offers.len() implies 1 <= #[trigger] t.offers[k].id
        <= last_id(t.counter) by {
        let k2 = if k < i { k } else { k + 1 };
        assert(t.offers[k] == s.offers[k2]);
    }
    assert forall|k: int| 0 <= k < t.fulfilled.len() implies 1 <= #[trigger] t.fulfilled[k].id
        <= last_id(t.counter) by {
        if k < n {
            assert(t.fulfilled[k] == s.fulfilled[k]);
        }
    }
    assert forall|a: int, b: int|
        0 <= a < t.fulfilled.len() && 0 <= b < t.fulfilled.len() && a != b implies t.fulfilled[a].id
        != t.fulfilled[b].id by {
        if a < n && b < n {
        } else if a < n {
            assert(s.offers[i].id != s.fulfilled[a].id);
        } else {
            assert(s.offers[i].id != s.fulfilled[b].id);
        }
    }
    assert forall|a: int, b: int|
        0 <= a < t.offers.len() && 0 <= b < t.fulfilled.len() implies t.offers[a].id
        != t.fulfilled[b].id by {
        let a2 = if a < i { a } else { a + 1 };
        assert(t.offers[a] == s.offers[a2]);
        if b < n {
            assert(t.fulfilled[b] == s.fulfilled[b]);
        } else {
            assert(t.fulfilled[b] == s.offers[i]);
            assert(a2 != i);
            if a2 < i {
                assert(s.offers[a2].id < s.offers[i].id);
            } else {
                assert(s.offers[i].id < s.offers[a2].id);
            }
        }
    }
    assert forall|k: int| 0 <= k < t.fulfilled.len() implies (#[trigger] t.fulfilled[k]).taker is Some by {
        if k < n {
            assert(t.fulfilled[k] == s.fulfilled[k]);
        }
    }
}

/// Settles the offer addressed by `offer_id`; the contract alone may call it.
pub fn fulfill_offer(
    state: &mut ContractState,
    env: &Env,
    info: &MessageInfo,
    offer_id: String,
) -> (r: Result<Response, ContractError>)
    ensures
        (final(state)@, result_view(r)) == fulfill_offer_spec(
            old(state)@,
            env.contract_address@,
            info.sender@,
            offer_id@,
        ),
        wf(old(state)@) ==> wf(final(state)@),
{
    if !(info.sender == env.contract_address) {
        return Err(ContractError::Unauthorized {});
    }
    let i = match find_open(state, &offer_id) {
        Some(i) => i,
        None => return Err(ContractError::NoOfferFound {}),
    };
    let taker = match &state.offers[i].taker {
        Some(t) => t.clone(),
        None => return Err(ContractError::InvalidTaker {}),
    };
    let mut resp = Response::new();
    let leg = match state.custody {
        Custody::DelegatedGrant => {
            let offer = &state.offers[i];
            let value = encode_exec_send(&env.contract_address, &offer.maker, &taker, &offer.maker_coin);
            CosmosMsg::Stargate { type_url: String::from_str(EXEC_TYPE_URL), value }
        },
        Custody::Escrow => CosmosMsg::BankSend {
            to_address: taker,
            amount: state.offers[i].maker_coin.duplicate(),
        },
    };
    resp.add_message(leg);
    resp.add_message(
        CosmosMsg::BankSend {
            to_address: state.offers[i].maker.clone(),
            amount: state.offers[i].taker_coin.duplicate(),
        },
    );
    resp.add_attribute("offer_id", offer_id);
    proof {
        if wf(state@) {
            lemma_archive_wf(state@, i as int);
        }
    }
    let offer = state.offers.remove(i);
    state.fulfilled_offers.push(offer);
    proof {
        let ghost spec_resp = fulfill_offer_spec(
            old(state)@,
            env.contract_address@,
            info.sender@,
            offer_id@,
        ).1;
        assert(resp@.messages =~= spec_resp->Ok_0.messages);
        assert(resp@.attributes =~= spec_resp->Ok_0.attributes);
        assert(state@.offers =~= old(state)@.offers.remove(i as int));
        assert(state@.fulfilled =~= old(state)@.fulfilled.push(offer@));
    }
    Ok(resp)
}

/// The deferred commit: the acknowledgment of the taker's payment into
/// custody, for the pending match. The pending slot is cleared on either
/// outcome. On success the contract invokes its own settlement of the offer.
/// On failure the offer is reopened for another taker and the coin that the
/// taker attached is returned, so that no payment is stranded.
pub open spec fn handle_match_spec(s: StateView, contract: Seq<char>, success: bool) -> Transition {
    match s.pending {
        None => (s, Err(ContractError::NoPendingMatch {})),
        Some(id) => {
            let cleared = StateView { pending: None, ..s };
            let i = index_of(s.offers, id);
            if success {
                (
                    cleared,
                    Ok(
                        ResponseView {
                            messages: seq![
                                plain(
                                    CosmosMsgView::FulfillOffer { contract_addr: contract, offer_id: dec(id as nat) },
                                ),
                            ],
                            attributes: seq![("successful_match"@, "fulfilment_initiated"@)],
                        },
                    ),
                )
            } else if i >= 0 && s.offers[i].taker is Some {
                let o = s.offers[i];
                (
                    StateView { offers: s.offers.update(i, OfferView { taker: None, ..o }), ..cleared },
                    Ok(
                        ResponseView {
                            messages: seq![
                                plain(
                                    CosmosMsgView::BankSend { to_address: o.taker->0, amount: o.taker_coin },
                                ),
                            ],
                            attributes: seq![("unsuccessful_match"@, "fulfilment_canceled"@)],
                        },
                    ),
                )
            } else {
                (
                    cleared,
                    Ok(
                        ResponseView {
                            messages: seq![],
                            attributes: seq![("unsuccessful_match"@, "fulfilment_canceled"@)],
                        },
                    ),
                )
            }
        },
    }
}

/// Handles the acknowledgment of the taker's payment into custody.
pub fn handle_taker_match_offer_request(
    state: &mut ContractState,
    env: &Env,
    msg: Reply,
) -> (r: Result<Response, ContractError>)
    ensures
        (final(state)@, result_view(r)) == handle_match_spec(
            old(state)@,
            env.contract_address@,
            msg.success,
        ),
        wf(old(state)@) ==> wf(final(state)@),
{
    let id = match state.pending_match {
        Some(id) => id,
        None => return Err(ContractError::NoPendingMatch {}),
    };
    state.pending_match = None;
    let mut resp = Response::new();
    if msg.success {
        resp.add_message(
            CosmosMsg::FulfillOffer {
                contract_addr: env.contract_address.clone(),
                offer_id: decimal_string(id),
            },
        );
        resp.add_attribute("successful_match", String::from_str("fulfilment_initiated"));
    } else {
        match position(&state.offers, id) {
            Some(i) => {
                match &state.offers[i].taker {
                    Some(t) => {
                        let refund = CosmosMsg::BankSend {
                            to_address: t.clone(),
                            amount: state.offers[i].taker_coin.duplicate(),
                        };
                        let mut offer = state.offers[i].duplicate();
                        offer.taker = None;
                        proof {
                            if wf(state@) {
                                lemma_set_taker_wf(state@, i as int, None, None);
                            }
                        }
                        state.offers.set(i, offer);
                        assert(state@.offers =~= old(state)@.offers.update(i as int, offer@));
                        resp.add_message(refund);
                    },
                    None => {},
                }
            },
            None => {},
        }
        resp.add_attribute("unsuccessful_match", String::from_str("fulfilment_canceled"));
    }
    proof {
        let ghost spec_resp = handle_match_spec(old(state)@, env.contract_address@, msg.success).1;
        assert(resp@.messages =~= spec_resp->Ok_0.messages);
        assert(resp@.attributes =~= spec_resp->Ok_0.attributes);
    }
    Ok(resp)
}

} // verus!
