//! The contract's entry points: instantiation, commands, replies and queries.
use crate::error::ContractError;
use crate::execute::{
    fulfill_offer, fulfill_offer_spec, handle_match_spec, handle_taker_match_offer_request,
    make_offer, make_offer_spec, provide_taker, provide_taker_spec, Transition,
    TAKER_MATCH_REPLY_ID,
};
use crate::msg::{
    coins_view, offers_view, opt_offer_view, CoinView, Custody, Env, ExecuteMsg, InstantiateMsg,
    MessageInfo, Offer, QueryMsg, Reply,
};
use crate::query::{page, page_limit, query_all_offers, query_fulfilled_offers};
use crate::response::{result_view, Response};
use crate::state::{lookup, wf, ContractState, StateView};
use vstd::prelude::*;

verus! {

/// The custody strategy that an instantiation asks for; a delegated grant by default.
pub open spec fn custody_of(msg: InstantiateMsg) -> Custody {
    match msg.custody {
        Some(c) => c,
        None => Custody::DelegatedGrant,
    }
}

/// The state of a new contract: no offers, nothing archived, nothing
/// pending, no id handed out.
pub open spec fn initial_state(custody: Custody) -> StateView {
    StateView { custody, counter: None, offers: seq![], fulfilled: seq![], pending: None }
}

/// Sets up a new contract.
pub fn instantiate(msg: InstantiateMsg) -> (r: ContractState)
    ensures
        r@ == initial_state(custody_of(msg)),
        wf(r@),
{
    let custody = match msg.custody {
        Some(c) => c,
        None => Custody::DelegatedGrant,
    };
    let r = ContractState {
        custody,
        offer_id_counter: None,
        offers: Vec::new(),
        fulfilled_offers: Vec::new(),
        pending_match: None,
    };
    assert(r@.offers =~= seq![]);
    assert(r@.fulfilled =~= seq![]);
    r
}

/// A command, as a transition.
pub open spec fn execute_spec(
    s: StateView,
    contract: Seq<char>,
    sender: Seq<char>,
    funds: Seq<CoinView>,
    msg: ExecuteMsg,
) -> Transition {
    match msg {
        ExecuteMsg::MakeOffer { maker_coin, taker_coin } => make_offer_spec(
            s,
            contract,
            sender,
            funds,
            maker_coin@,
            taker_coin@,
        ),
        ExecuteMsg::OfferTaker { offer_id } => provide_taker_spec(
            s,
            contract,
            sender,
            funds,
            offer_id@,
        ),
        ExecuteMsg::FulfillOffer { offer_id } => fulfill_offer_spec(s, contract, sender, offer_id@),
    }
}

/// Runs a command.
pub fn execute(state: &mut ContractState, env: &Env, info: &MessageInfo, msg: ExecuteMsg) -> (r:
    Result<Response, ContractError>)
    ensures
        (final(state)@, result_view(r)) == execute_spec(
            old(state)@,
            env.contract_address@,
            info.sender@,
            coins_view(info.funds@),
            msg,
        ),
        wf(old(state)@) ==> wf(final(state)@),
{
    match msg {
        ExecuteMsg::MakeOffer { maker_coin, taker_coin } => make_offer(
            state,
            env,
            info,
            maker_coin,
            taker_coin,
        ),
        ExecuteMsg::OfferTaker { offer_id } => provide_taker(state, env, info, offer_id),
        ExecuteMsg::FulfillOffer { offer_id } => fulfill_offer(state, env, info, offer_id),
    }
}

/// A reply, as a transition: only the acknowledgment of a taker's payment
/// is recognized.
pub open spec fn reply_spec(s: StateView, contract: Seq<char>, msg: Reply) -> Transition {
    if msg.id != TAKER_MATCH_REPLY_ID {
        (s, Err(ContractError::ReplyIdError(msg.id)))
    } else {
        handle_match_spec(s, contract, msg.success)
    }
}

/// Handles the acknowledgment of a sub-message.
pub fn reply(state: &mut ContractState, env: &Env, msg: Reply) -> (r: Result<Response, ContractError>)
    ensures
        (final(state)@, result_view(r)) == reply_spec(old(state)@, env.contract_address@, msg),
        wf(old(state)@) ==> wf(final(state)@),
{
    if msg.id == TAKER_MATCH_REPLY_ID {
        handle_taker_match_offer_request(state, env, msg)
    } else {
        Err(ContractError::ReplyIdError(msg.id))
    }
}

/// The answer to a query.
#[derive(Clone, Debug, PartialEq, Eq)]
pub enum QueryResponse {
    /// A page of open offers.
    Offers(Vec<Offer>),
    /// The archived record of a settled offer, if there is one.
    FulfilledOffer(Option<Offer>),
}

/// Answers a query.
pub fn query(state: &ContractState, msg: QueryMsg) -> (r: QueryResponse)
    ensures
        match msg {
            QueryMsg::AllOffers { start_after, limit } => r matches QueryResponse::Offers(v)
                && offers_view(v@) == page(state@.offers, start_after, page_limit(limit)),
            QueryMsg::FulfilledOffers { offer_id } => r matches QueryResponse::FulfilledOffer(o)
                && opt_offer_view(o) == lookup(state@.fulfilled, offer_id),
        },
{
    match msg {
        QueryMsg::AllOffers { start_after, limit } => QueryResponse::Offers(
            query_all_offers(state, start_after, limit),
        ),
        QueryMsg::FulfilledOffers { offer_id } => QueryResponse::FulfilledOffer(
            query_fulfilled_offers(state, offer_id),
        ),
    }
}

} // verus!
