use atomic_swaps_contract::contract::{execute, instantiate, query, reply, QueryResponse};
use atomic_swaps_contract::error::ContractError;
use atomic_swaps_contract::msg::{
    Coin, Custody, Env, ExecuteMsg, InstantiateMsg, MessageInfo, Offer, QueryMsg, Reply,
};
use atomic_swaps_contract::response::{CosmosMsg, Response};
use atomic_swaps_contract::state::ContractState;
use osmosis_std::types::cosmos::authz::v1beta1::{MsgExec, MsgGrant};
use osmosis_std::types::cosmos::bank::v1beta1::{MsgSend, SendAuthorization};
use prost::Message;
use std::collections::HashMap;

const CONTRACT: &str = "contract";
const MAKER: &str = "maker";
const TAKER: &str = "taker";
const OUTSIDER: &str = "outsider";

fn coin(amount: u128, denom: &str) -> Coin {
    Coin { denom: denom.to_string(), amount }
}

/// A ledger with bank balances and send authorizations, running the
/// contract. A transaction that fails anywhere leaves no trace.
struct Chain {
    state: ContractState,
    balances: HashMap<(String, String), u128>,
    grants: HashMap<(String, String, String), u128>,
    grant_requests: Vec<MsgGrant>,
}

impl Chain {
    fn new(custody: Option<Custody>) -> Chain {
        let mut chain = Chain {
            state: instantiate(InstantiateMsg { custody }),
            balances: HashMap::new(),
            grants: HashMap::new(),
            grant_requests: Vec::new(),
        };
        for who in [MAKER, TAKER, OUTSIDER] {
            chain.mint(who, 1_000_000_000_000, "uatom");
            chain.mint(who, 1_000_000_000_000, "uosmo");
        }
        chain
    }

    fn mint(&mut self, who: &str, amount: u128, denom: &str) {
        *self.balances.entry((who.to_string(), denom.to_string())).or_insert(0) += amount;
    }

    fn balance(&self, who: &str, denom: &str) -> u128 {
        *self.balances.get(&(who.to_string(), denom.to_string())).unwrap_or(&0)
    }

    /// The maker's own transaction granting the contract a send authorization.
    fn grant(&mut self, granter: &str, limit: Coin) {
        self.grants
            .insert((granter.to_string(), CONTRACT.to_string(), limit.denom), limit.amount);
    }

    fn transfer(&mut self, from: &str, to: &str, c: &Coin) -> Result<(), String> {
        let have = self.balance(from, &c.denom);
        if have < c.amount {
            return Err("insufficient funds".to_string());
        }
        self.balances.insert((from.to_string(), c.denom.clone()), have - c.amount);
        self.mint(to, c.amount, &c.denom);
        Ok(())
    }

    fn env() -> Env {
        Env { contract_address: CONTRACT.to_string() }
    }

    fn tx(&mut self, sender: &str, funds: Vec<Coin>, msg: ExecuteMsg) -> Result<Response, String> {
        let state = self.state.clone();
        let balances = self.balances.clone();
        let grants = self.grants.clone();
        let requests = self.grant_requests.clone();
        let r = self.run(sender, funds, msg);
        if r.is_err() {
            self.state = state;
            self.balances = balances;
            self.grants = grants;
            self.grant_requests = requests;
        }
        r
    }

    fn run(&mut self, sender: &str, funds: Vec<Coin>, msg: ExecuteMsg) -> Result<Response, String> {
        for c in &funds {
            self.transfer(sender, CONTRACT, c)?;
        }
        let info = MessageInfo { sender: sender.to_string(), funds };
        let resp = execute(&mut self.state, &Chain::env(), &info, msg)
            .map_err(|e| format!("{:?}", e))?;
        self.dispatch(&resp)?;
        Ok(resp)
    }

    fn dispatch(&mut self, resp: &Response) -> Result<(), String> {
        for sub in &resp.messages {
            match sub.reply_id {
                None => self.deliver(&sub.msg)?,
                Some(id) => {
                    let balances = self.balances.clone();
                    let success = self.deliver(&sub.msg).is_ok();
                    if !success {
                        self.balances = balances;
                    }
                    let r = reply(&mut self.state, &Chain::env(), Reply { id, success })
                        .map_err(|e| format!("{:?}", e))?;
                    self.dispatch(&r)?;
                }
            }
        }
        Ok(())
    }

    fn deliver(&mut self, msg: &CosmosMsg) -> Result<(), String> {
        match msg {
            CosmosMsg::BankSend { to_address, amount } => self.transfer(CONTRACT, to_address, amount),
            CosmosMsg::Stargate { type_url, value } if type_url == "/cosmos.authz.v1beta1.MsgGrant" => {
                let m = MsgGrant::decode(value.as_slice()).map_err(|e| e.to_string())?;
                self.grant_requests.push(m);
                Ok(())
            }
            CosmosMsg::Stargate { type_url, value } if type_url == "/cosmos.authz.v1beta1.MsgExec" => {
                let m = MsgExec::decode(value.as_slice()).map_err(|e| e.to_string())?;
                for any in &m.msgs {
                    let send = MsgSend::decode(any.value.as_slice()).map_err(|e| e.to_string())?;
                    for c in &send.amount {
                        let key = (send.from_address.clone(), m.grantee.clone(), c.denom.clone());
                        let amount: u128 = c.amount.parse().unwrap();
                        let left = *self
                            .grants
                            .get(&key)
                            .ok_or("authorization not found: unauthorized".to_string())?;
                        if left < amount {
                            return Err("requested amount is more than spend limit".to_string());
                        }
                        self.grants.insert(key, left - amount);
                        self.transfer(&send.from_address, &send.to_address, &coin(amount, &c.denom))?;
                    }
                }
                Ok(())
            }
            CosmosMsg::Stargate { .. } => Err("unknown message".to_string()),
            CosmosMsg::FulfillOffer { contract_addr, offer_id } => self
                .run(contract_addr, vec![], ExecuteMsg::FulfillOffer { offer_id: offer_id.clone() })
                .map(|_| ()),
        }
    }

    fn open_offers(&self) -> Vec<Offer> {
        match query(&self.state, QueryMsg::AllOffers { start_after: None, limit: None }) {
            QueryResponse::Offers(v) => v,
            other => panic!("unexpected answer {:?}", other),
        }
    }

    fn fulfilled(&self, offer_id: u64) -> Option<Offer> {
        match query(&self.state, QueryMsg::FulfilledOffers { offer_id }) {
            QueryResponse::FulfilledOffer(o) => o,
            other => panic!("unexpected answer {:?}", other),
        }
    }
}

fn make_offer_msg(maker: Coin, taker: Coin) -> ExecuteMsg {
    ExecuteMsg::MakeOffer { maker_coin: maker, taker_coin: taker }
}

fn err(e: ContractError) -> Result<Response, String> {
    Err(format!("{:?}", e))
}

#[test]
fn maker_attempts_to_send_funds_before_accepted_match() {
    let mut chain = Chain::new(None);
    let r = chain.tx(
        MAKER,
        vec![coin(1_000_000_000, "uatom")],
        make_offer_msg(coin(1_000_000_000, "uatom"), coin(1_000_000_000, "uosmo")),
    );
    assert_eq!(r, err(ContractError::InaccurateFunds {}));
    assert!(chain.open_offers().is_empty());
    assert_eq!(chain.state.offer_id_counter, None);
    assert_eq!(chain.balance(MAKER, "uatom"), 1_000_000_000_000);
}

#[test]
fn account_that_isnt_contract_attempts_to_directly_execute_fulfill_offer() {
    let mut chain = Chain::new(None);
    chain.grant(MAKER, coin(1_000_000_000_000_000, "uatom"));
    chain
        .tx(MAKER, vec![], make_offer_msg(coin(1_000_000_000, "uatom"), coin(1_000_000_000, "uosmo")))
        .unwrap();
    let offer_id = 1u64.to_string();
    let r = chain.tx(
        TAKER,
        vec![coin(1_000_000_000, "uosmo")],
        ExecuteMsg::FulfillOffer { offer_id },
    );
    assert_eq!(r, err(ContractError::Unauthorized {}));
    assert_eq!(chain.balance(TAKER, "uosmo"), 1_000_000_000_000);
    assert_eq!(chain.open_offers().len(), 1);
}

#[test]
fn invalid_offer_id_is_passed() {
    let mut chain = Chain::new(None);
    chain.grant(MAKER, coin(1_000_000_000_000_000, "uatom"));
    chain
        .tx(MAKER, vec![], make_offer_msg(coin(1_000_000_000, "uatom"), coin(1_000_000_000, "uosmo")))
        .unwrap();
    let offer_id = 2u64.to_string();
    let r = chain.tx(
        TAKER,
        vec![coin(1_000_000_000, "uatom")],
        ExecuteMsg::OfferTaker { offer_id },
    );
    assert_eq!(r, err(ContractError::NoOfferFound {}));
}

#[test]
fn contract_never_authorized_by_maker() {
    let mut chain = Chain::new(None);
    chain
        .tx(MAKER, vec![], make_offer_msg(coin(1_000_000_000, "uatom"), coin(1_000_000_000, "uosmo")))
        .unwrap();
    let before = chain.state.clone();
    let offer_id = 1u64.to_string();
    let r = chain.tx(
        TAKER,
        vec![coin(1_000_000_000, "uosmo")],
        ExecuteMsg::OfferTaker { offer_id },
    );
    assert!(r.unwrap_err().contains("authorization not found: unauthorized"));
    assert_eq!(chain.state, before);
    assert_eq!(chain.balance(TAKER, "uosmo"), 1_000_000_000_000);
    assert_eq!(chain.balance(MAKER, "uatom"), 1_000_000_000_000);
}

#[test]
fn additional_funds_are_sent_by_taker() {
    let mut chain = Chain::new(None);
    chain.grant(MAKER, coin(1_000_000_000_000_000, "uatom"));
    chain
        .tx(MAKER, vec![], make_offer_msg(coin(1_000_000_000, "uatom"), coin(1_000_000_000, "uosmo")))
        .unwrap();
    let offer_id = 1u64.to_string();
    let r = chain.tx(
        TAKER,
        vec![coin(1_000_000_000, "uosmo"), coin(1_000_000_000, "uatom")],
        ExecuteMsg::OfferTaker { offer_id },
    );
    assert_eq!(r, err(ContractError::InaccurateFunds {}));
    assert_eq!(chain.open_offers()[0].taker, None);
}

#[test]
fn incorrect_funds_are_sent_by_taker() {
    let mut chain = Chain::new(None);
    chain.grant(MAKER, coin(1_000_000_000_000_000, "uatom"));
    chain
        .tx(MAKER, vec![], make_offer_msg(coin(1_000_000_000, "uatom"), coin(1_000_000_000, "uosmo")))
        .unwrap();
    let offer_id = 1u64.to_string();
    let r = chain.tx(
        TAKER,
        vec![coin(1_000_000_000, "uatom")],
        ExecuteMsg::OfferTaker { offer_id },
    );
    assert_eq!(r, err(ContractError::InaccurateFunds {}));
}

// The ledger here charges no gas, so each balance moves by the swapped amount alone.
#[test]
fn successful_swap() {
    let mut chain = Chain::new(None);
    chain.grant(MAKER, coin(1_000_000_000_000_000, "uatom"));
    chain
        .tx(MAKER, vec![], make_offer_msg(coin(1_000_000_000, "uatom"), coin(1_000_000_000, "uosmo")))
        .unwrap();
    let open_offers = chain.open_offers();
    assert_eq!(open_offers[0].taker_coin, coin(1_000_000_000, "uosmo"));
    assert_eq!(open_offers[0].maker_coin, coin(1_000_000_000, "uatom"));
    assert_eq!(open_offers[0].taker, None);

    let number: u64 = 1;
    chain
        .tx(
            TAKER,
            vec![coin(1_000_000_000, "uosmo")],
            ExecuteMsg::OfferTaker { offer_id: number.to_string() },
        )
        .unwrap();
    let response = chain.fulfilled(number).unwrap();
    assert_eq!(chain.balance(MAKER, "uatom"), 999000000000);
    assert_eq!(chain.balance(TAKER, "uatom"), 1001000000000);
    assert_eq!(chain.balance(MAKER, "uosmo"), 1001000000000);
    assert_eq!(chain.balance(TAKER, "uosmo"), 999000000000);
    assert_eq!(response.maker, MAKER.to_string());
    assert_eq!(response.taker, Some(TAKER.to_string()));
    assert_eq!(response.maker_coin, coin(1_000_000_000, "uatom"));
    assert_eq!(response.taker_coin, coin(1_000_000_000, "uosmo"));
    assert!(chain.open_offers().is_empty());
    assert_eq!(chain.state.pending_match, None);
}

#[test]
fn escrow_swap_settles_both_legs() {
    let mut chain = Chain::new(Some(Custody::Escrow));
    chain
        .tx(
            MAKER,
            vec![coin(1_000_000, "uatom")],
            make_offer_msg(coin(1_000_000, "uatom"), coin(1_000_000, "uosmo")),
        )
        .unwrap();
    chain
        .tx(TAKER, vec![coin(1_000_000, "uosmo")], ExecuteMsg::OfferTaker { offer_id: "1".to_string() })
        .unwrap();
    assert_eq!(chain.balance(MAKER, "uatom"), 1_000_000_000_000 - 1_000_000);
    assert_eq!(chain.balance(MAKER, "uosmo"), 1_000_000_000_000 + 1_000_000);
    assert_eq!(chain.balance(TAKER, "uatom"), 1_000_000_000_000 + 1_000_000);
    assert_eq!(chain.balance(TAKER, "uosmo"), 1_000_000_000_000 - 1_000_000);
    assert_eq!(chain.balance(CONTRACT, "uatom"), 0);
    assert_eq!(chain.balance(CONTRACT, "uosmo"), 0);
    assert!(chain.open_offers().is_empty());
    assert_eq!(chain.fulfilled(1).unwrap().taker, Some(TAKER.to_string()));
}

#[test]
fn escrow_offer_needs_exact_maker_coin() {
    let mut chain = Chain::new(Some(Custody::Escrow));
    for funds in [
        vec![],
        vec![coin(999_999, "uatom")],
        vec![coin(1_000_000, "uosmo")],
        vec![coin(1_000_000, "uatom"), coin(1, "uosmo")],
    ] {
        let r = chain.tx(MAKER, funds, make_offer_msg(coin(1_000_000, "uatom"), coin(1_000_000, "uosmo")));
        assert_eq!(r, err(ContractError::InaccurateFunds {}));
    }
    assert!(chain.open_offers().is_empty());
    assert_eq!(chain.state.offer_id_counter, None);
}

#[test]
fn small_payment_leaves_offer_open() {
    let mut chain = Chain::new(None);
    chain.grant(MAKER, coin(1_000_000_000, "uatom"));
    chain
        .tx(MAKER, vec![], make_offer_msg(coin(1_000_000_000, "uatom"), coin(1_000_000_000, "uosmo")))
        .unwrap();
    let before = chain.open_offers();
    let r = chain.tx(TAKER, vec![coin(1_000, "uosmo")], ExecuteMsg::OfferTaker { offer_id: "1".to_string() });
    assert_eq!(r, err(ContractError::InaccurateFunds {}));
    assert_eq!(chain.open_offers(), before);
    assert_eq!(chain.open_offers()[0].taker, None);
    assert_eq!(chain.balance(TAKER, "uosmo"), 1_000_000_000_000);
}

#[test]
fn outsider_cannot_settle_matched_offer() {
    let mut chain = Chain::new(None);
    chain
        .tx(MAKER, vec![], make_offer_msg(coin(1_000_000, "uatom"), coin(1_000_000, "uosmo")))
        .unwrap();
    // Bind without running the ledger, so the custody acknowledgment is still due.
    let info = MessageInfo { sender: TAKER.to_string(), funds: vec![coin(1_000_000, "uosmo")] };
    execute(&mut chain.state, &Chain::env(), &info, ExecuteMsg::OfferTaker { offer_id: "1".to_string() })
        .unwrap();
    assert_eq!(chain.state.pending_match, Some(1));
    let before = chain.state.clone();
    let r = chain.tx(OUTSIDER, vec![], ExecuteMsg::FulfillOffer { offer_id: "1".to_string() });
    assert_eq!(r, err(ContractError::Unauthorized {}));
    assert_eq!(chain.state, before);
    assert_eq!(chain.balance(MAKER, "uatom"), 1_000_000_000_000);
    assert_eq!(chain.balance(OUTSIDER, "uatom"), 1_000_000_000_000);
}

#[test]
fn ungranted_settlement_rolls_back() {
    let mut chain = Chain::new(None);
    chain
        .tx(MAKER, vec![], make_offer_msg(coin(1_000_000, "uatom"), coin(1_000_000, "uosmo")))
        .unwrap();
    // The taker's payment reaches custody and is acknowledged.
    chain.transfer(TAKER, CONTRACT, &coin(1_000_000, "uosmo")).unwrap();
    let info = MessageInfo { sender: TAKER.to_string(), funds: vec![coin(1_000_000, "uosmo")] };
    execute(&mut chain.state, &Chain::env(), &info, ExecuteMsg::OfferTaker { offer_id: "1".to_string() })
        .unwrap();
    let ack = reply(&mut chain.state, &Chain::env(), Reply { id: 1, success: true }).unwrap();
    assert_eq!(
        ack.messages[0].msg,
        CosmosMsg::FulfillOffer { contract_addr: CONTRACT.to_string(), offer_id: "1".to_string() }
    );
    // Settlement is its own invocation; the pull of the maker's coin finds no grant.
    let r = chain.tx(CONTRACT, vec![], ExecuteMsg::FulfillOffer { offer_id: "1".to_string() });
    assert!(r.unwrap_err().contains("authorization not found"));
    assert_eq!(chain.fulfilled(1), None);
    let open = chain.open_offers();
    assert_eq!(open.len(), 1);
    assert_eq!(open[0].taker, Some(TAKER.to_string()));
    assert_eq!(chain.balance(CONTRACT, "uosmo"), 1_000_000);
    assert_eq!(chain.balance(MAKER, "uatom"), 1_000_000_000_000);
}

#[test]
fn fulfilled_offer_query_is_repeatable() {
    let mut chain = Chain::new(Some(Custody::Escrow));
    chain
        .tx(MAKER, vec![coin(5, "uatom")], make_offer_msg(coin(5, "uatom"), coin(7, "uosmo")))
        .unwrap();
    chain.tx(TAKER, vec![coin(7, "uosmo")], ExecuteMsg::OfferTaker { offer_id: "1".to_string() }).unwrap();
    let first = chain.fulfilled(1);
    chain
        .tx(MAKER, vec![coin(5, "uatom")], make_offer_msg(coin(5, "uatom"), coin(7, "uosmo")))
        .unwrap();
    let second = chain.fulfilled(1);
    assert!(first.is_some());
    assert_eq!(first, second);
    assert_eq!(chain.fulfilled(2), None);
}

#[test]
fn grant_request_names_contract_and_maker_coin() {
    let mut chain = Chain::new(None);
    let resp = chain
        .tx(MAKER, vec![], make_offer_msg(coin(1_000_000_000, "uatom"), coin(1_000_000_000, "uosmo")))
        .unwrap();
    assert_eq!(chain.grant_requests.len(), 1);
    let m = &chain.grant_requests[0];
    assert_eq!(m.granter, MAKER);
    assert_eq!(m.grantee, CONTRACT);
    let auth = m.grant.as_ref().unwrap().authorization.as_ref().unwrap();
    assert_eq!(auth.type_url, "/cosmos.bank.v1beta1.SendAuthorization");
    let send = SendAuthorization::decode(auth.value.as_slice()).unwrap();
    assert_eq!(send.spend_limit.len(), 1);
    assert_eq!(send.spend_limit[0].denom, "uatom");
    assert_eq!(send.spend_limit[0].amount, "1000000000");
    let attrs: Vec<(String, String)> =
        resp.attributes.iter().map(|a| (a.key.clone(), a.value.clone())).collect();
    assert_eq!(
        attrs,
        vec![
            ("offer_id".to_string(), "1".to_string()),
            ("authorization_granted".to_string(), MAKER.to_string()),
            ("maker_coin".to_string(), "uatom".to_string()),
            ("taker_coin".to_string(), "uosmo".to_string()),
        ]
    );
}

#[test]
fn settlement_pulls_maker_coin_through_grant() {
    let mut state = instantiate(InstantiateMsg { custody: None });
    let maker = MessageInfo { sender: MAKER.to_string(), funds: vec![] };
    execute(&mut state, &Chain::env(), &maker, make_offer_msg(coin(3, "uatom"), coin(4, "uosmo"))).unwrap();
    let taker = MessageInfo { sender: TAKER.to_string(), funds: vec![coin(4, "uosmo")] };
    execute(&mut state, &Chain::env(), &taker, ExecuteMsg::OfferTaker { offer_id: "1".to_string() }).unwrap();
    let me = MessageInfo { sender: CONTRACT.to_string(), funds: vec![] };
    let resp = execute(&mut state, &Chain::env(), &me, ExecuteMsg::FulfillOffer { offer_id: "1".to_string() })
        .unwrap();
    assert_eq!(resp.messages.len(), 2);
    match &resp.messages[0].msg {
        CosmosMsg::Stargate { type_url, value } => {
            assert_eq!(type_url, "/cosmos.authz.v1beta1.MsgExec");
            let exec = MsgExec::decode(value.as_slice()).unwrap();
            assert_eq!(exec.grantee, CONTRACT);
            assert_eq!(exec.msgs.len(), 1);
            assert_eq!(exec.msgs[0].type_url, "/cosmos.bank.v1beta1.MsgSend");
            let send = MsgSend::decode(exec.msgs[0].value.as_slice()).unwrap();
            assert_eq!(send.from_address, MAKER);
            assert_eq!(send.to_address, TAKER);
            assert_eq!(send.amount[0].denom, "uatom");
            assert_eq!(send.amount[0].amount, "3");
        }
        other => panic!("unexpected leg {:?}", other),
    }
    assert_eq!(
        resp.messages[1].msg,
        CosmosMsg::BankSend { to_address: MAKER.to_string(), amount: coin(4, "uosmo") }
    );
    assert!(state.offers.is_empty());
    assert_eq!(state.fulfilled_offers.len(), 1);
}
