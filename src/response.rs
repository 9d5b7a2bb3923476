//! What an invocation hands back to the ledger: messages to dispatch and
//! attributes to record.
use crate::msg::{Coin, CoinView};
use vstd::prelude::*;

verus! {

/// A message that the ledger dispatches on the contract's behalf.
#[derive(Clone, Debug, PartialEq, Eq)]
pub enum CosmosMsg {
    /// Sends `amount` from the contract's balance to `to_address`.
    BankSend { to_address: String, amount: Coin },
    /// A protobuf-encoded message of type `type_url`.
    Stargate { type_url: String, value: Vec<u8> },
    /// Invokes `FulfillOffer { offer_id }` on the contract at `contract_addr`.
    FulfillOffer { contract_addr: String, offer_id: String },
}

/// What a [`CosmosMsg`] stands for.
pub enum CosmosMsgView {
    BankSend { to_address: Seq<char>, amount: CoinView },
    Stargate { type_url: Seq<char>, value: Seq<u8> },
    FulfillOffer { contract_addr: Seq<char>, offer_id: Seq<char> },
}

impl View for CosmosMsg {
    type V = CosmosMsgView;

    open spec fn view(&self) -> CosmosMsgView {
        match self {
            CosmosMsg::BankSend { to_address, amount } => CosmosMsgView::BankSend {
                to_address: to_address@,
                amount: amount@,
            },
            CosmosMsg::Stargate { type_url, value } => CosmosMsgView::Stargate {
                type_url: type_url@,
                value: value@,
            },
            CosmosMsg::FulfillOffer { contract_addr, offer_id } => CosmosMsgView::FulfillOffer {
                contract_addr: contract_addr@,
                offer_id: offer_id@,
            },
        }
    }
}

/// A message, and the id under which its outcome is reported back, if it is.
#[derive(Clone, Debug, PartialEq, Eq)]
pub struct SubMsg {
    pub msg: CosmosMsg,
    pub reply_id: Option<u64>,
}

/// What a [`SubMsg`] stands for.
pub struct SubMsgView {
    pub msg: CosmosMsgView,
    pub reply_id: Option<u64>,
}

impl View for SubMsg {
    type V = SubMsgView;

    open spec fn view(&self) -> SubMsgView {
        SubMsgView { msg: self.msg@, reply_id: self.reply_id }
    }
}

/// A key and a value recorded with the invocation.
#[derive(Clone, Debug, PartialEq, Eq)]
pub struct Attribute {
    pub key: String,
    pub value: String,
}

/// The outcome of a successful invocation.
#[derive(Clone, Debug, PartialEq, Eq)]
pub struct Response {
    pub messages: Vec<SubMsg>,
    pub attributes: Vec<Attribute>,
}

/// What a [`Response`] stands for.
pub struct ResponseView {
    pub messages: Seq<SubMsgView>,
    pub attributes: Seq<(Seq<char>, Seq<char>)>,
}

impl View for Response {
    type V = ResponseView;

    open spec fn view(&self) -> ResponseView {
        ResponseView {
            messages: self.messages@.map_values(|m: SubMsg| m@),
            attributes: self.attributes@.map_values(|a: Attribute| (a.key@, a.value@)),
        }
    }
}

/// A message dispatched without asking for a reply.
pub open spec fn plain(msg: CosmosMsgView) -> SubMsgView {
    SubMsgView { msg, reply_id: None }
}

/// The view of an invocation's result.
pub open spec fn result_view(r: Result<Response, crate::error::ContractError>) -> Result<
    ResponseView,
    crate::error::ContractError,
> {
    match r {
        Ok(resp) => Ok(resp@),
        Err(e) => Err(e),
    }
}

impl Response {
    /// A response with no messages and no attributes.
    pub fn new() -> (r: Response)
        ensures
            r@.messages == Seq::<SubMsgView>::empty(),
            r@.attributes == Seq::<(Seq<char>, Seq<char>)>::empty(),
    {
        let r = Response { messages: Vec::new(), attributes: Vec::new() };
        assert(r@.messages =~= Seq::<SubMsgView>::empty());
        assert(r@.attributes =~= Seq::<(Seq<char>, Seq<char>)>::empty());
        r
    }

    /// Appends a message dispatched without a reply.
    pub fn add_message(&mut self, msg: CosmosMsg)
        ensures
            final(self)@.messages == old(self)@.messages.push(plain(msg@)),
            final(self)@.attributes == old(self)@.attributes,
    {
        self.messages.push(SubMsg { msg, reply_id: None });
        assert(self@.messages =~= old(self)@.messages.push(plain(msg@)));
        assert(self@.attributes =~= old(self)@.attributes);
    }

    /// Appends a message whose outcome, success or failure, is reported back
    /// under `reply_id`.
    pub fn add_submessage(&mut self, msg: CosmosMsg, reply_id: u64)
        ensures
            final(self)@.messages == old(self)@.messages.push(
                SubMsgView { msg: msg@, reply_id: Some(reply_id) },
            ),
            final(self)@.attributes == old(self)@.attributes,
    {
        self.messages.push(SubMsg { msg, reply_id: Some(reply_id) });
        assert(self@.messages =~= old(self)@.messages.push(
            SubMsgView { msg: msg@, reply_id: Some(reply_id) },
        ));
        assert(self@.attributes =~= old(self)@.attributes);
    }

    /// Appends the attribute `key` = `value`.
    pub fn add_attribute(&mut self, key: &str, value: String)
        ensures
            final(self)@.messages == old(self)@.messages,
            final(self)@.attributes == old(self)@.attributes.push((key@, value@)),
    {
        self.attributes.push(Attribute { key: String::from_str(key), value });
        assert(self@.messages =~= old(self)@.messages);
        assert(self@.attributes =~= old(self)@.attributes.push((key@, value@)));
    }
}

} // verus!
