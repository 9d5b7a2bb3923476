//! Messages, assets and offers, each with the mathematical value it stands for.
use vstd::prelude::*;

verus! {

/// An amount of one denomination.
#[derive(Clone, Debug, PartialEq, Eq)]
pub struct Coin {
    pub denom: String,
    pub amount: u128,
}

/// What a [`Coin`] stands for.
pub struct CoinView {
    pub denom: Seq<char>,
    pub amount: u128,
}

impl View for Coin {
    type V = CoinView;

    open spec fn view(&self) -> CoinView {
        CoinView { denom: self.denom@, amount: self.amount }
    }
}

impl Coin {
    /// Whether both coins are of one denomination and amount.
    pub fn same_as(&self, other: &Coin) -> (r: bool)
        ensures
            r == (self@ == other@),
    {
        self.amount == other.amount && self.denom == other.denom
    }

    /// A copy of this coin.
    pub fn duplicate(&self) -> (r: Coin)
        ensures
            r@ == self@,
    {
        Coin { denom: self.denom.clone(), amount: self.amount }
    }
}

/// The views of a sequence of coins.
pub open spec fn coins_view(v: Seq<Coin>) -> Seq<CoinView> {
    v.map_values(|c: Coin| c@)
}

/// An optional account, as a value.
pub open spec fn opt_view(o: Option<String>) -> Option<Seq<char>> {
    match o {
        Some(s) => Some(s@),
        None => None,
    }
}

/// How the maker's side of a swap is held until settlement.
#[derive(Clone, Copy, Debug, PartialEq, Eq, Structural)]
pub enum Custody {
    /// The maker attaches the offered coin when creating the offer and the
    /// contract pays it out at settlement.
    Escrow,
    /// The maker attaches nothing; settlement pulls the offered coin from the
    /// maker's account through a send authorization granted to the contract.
    DelegatedGrant,
}

/// A maker's standing proposal to exchange `maker_coin` for `taker_coin`.
#[derive(Clone, Debug, PartialEq, Eq)]
pub struct Offer {
    pub id: u64,
    pub maker: String,
    pub taker: Option<String>,
    pub maker_coin: Coin,
    pub taker_coin: Coin,
}

/// What an [`Offer`] stands for.
pub struct OfferView {
    pub id: u64,
    pub maker: Seq<char>,
    pub taker: Option<Seq<char>>,
    pub maker_coin: CoinView,
    pub taker_coin: CoinView,
}

impl View for Offer {
    type V = OfferView;

    open spec fn view(&self) -> OfferView {
        OfferView {
            id: self.id,
            maker: self.maker@,
            taker: opt_view(self.taker),
            maker_coin: self.maker_coin@,
            taker_coin: self.taker_coin@,
        }
    }
}

impl Offer {
    /// A copy of this offer.
    pub fn duplicate(&self) -> (r: Offer)
        ensures
            r@ == self@,
    {
        let taker = match &self.taker {
            Some(t) => Some(t.clone()),
            None => None,
        };
        Offer {
            id: self.id,
            maker: self.maker.clone(),
            taker,
            maker_coin: self.maker_coin.duplicate(),
            taker_coin: self.taker_coin.duplicate(),
        }
    }
}

/// The views of a sequence of offers.
pub open spec fn offers_view(v: Seq<Offer>) -> Seq<OfferView> {
    v.map_values(|o: Offer| o@)
}

/// The optional view of an optional offer.
pub open spec fn opt_offer_view(o: Option<Offer>) -> Option<OfferView> {
    match o {
        Some(x) => Some(x@),
        None => None,
    }
}

/// The environment of an invocation: the contract's own address.
#[derive(Clone, Debug)]
pub struct Env {
    pub contract_address: String,
}

/// Who invoked the contract, and the coins attached to the invocation.
#[derive(Clone, Debug)]
pub struct MessageInfo {
    pub sender: String,
    pub funds: Vec<Coin>,
}

/// Sets the contract up; without a custody strategy, offers use a delegated grant.
#[derive(Clone, Debug, PartialEq, Eq)]
pub struct InstantiateMsg {
    pub custody: Option<Custody>,
}

/// The commands of the contract.
#[derive(Clone, Debug, PartialEq, Eq)]
pub enum ExecuteMsg {
    /// Opens an offer of `maker_coin` for `taker_coin`.
    MakeOffer { maker_coin: Coin, taker_coin: Coin },
    /// Binds the sender as taker of the offer, paying the asked coin.
    OfferTaker { offer_id: String },
    /// Settles a matched offer; only the contract itself may send it.
    FulfillOffer { offer_id: String },
}

/// The queries of the contract.
#[derive(Clone, Debug, PartialEq, Eq)]
pub enum QueryMsg {
    /// Open offers with an id above `start_after`, ascending, at most `limit`
    /// of them (ten by default).
    AllOffers { start_after: Option<u64>, limit: Option<u32> },
    /// The archived record of a settled offer.
    FulfilledOffers { offer_id: u64 },
}

/// The acknowledgment of a sub-message that asked for a reply.
#[derive(Clone, Debug, PartialEq, Eq)]
pub struct Reply {
    pub id: u64,
    pub success: bool,
}

} // verus!
