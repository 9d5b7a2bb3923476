//! Protobuf encoding of the authorization messages, done by osmosis-std's
//! generated types and prost.
use crate::msg::Coin;
use osmosis_std::types::cosmos::authz::v1beta1::{Grant, MsgExec, MsgGrant};
use osmosis_std::types::cosmos::bank::v1beta1::{MsgSend, SendAuthorization};
use osmosis_std::types::cosmos::base::v1beta1::Coin as ProtoCoin;
use vstd::prelude::*;

verus! {

/// The type url of an authorization grant.
pub const GRANT_TYPE_URL: &'static str = "/cosmos.authz.v1beta1.MsgGrant";

/// The type url of the execution of granted messages.
pub const EXEC_TYPE_URL: &'static str = "/cosmos.authz.v1beta1.MsgExec";

/// The encoding of a `MsgGrant` from `granter` to `grantee` of a send
/// authorization limited to `amount` of `denom`, with no expiration.
pub uninterp spec fn send_grant_bytes(
    granter: Seq<char>,
    grantee: Seq<char>,
    denom: Seq<char>,
    amount: u128,
) -> Seq<u8>;

/// The encoding of a `MsgExec` by `grantee` of one `MsgSend` of `amount` of
/// `denom` from `from` to `to`.
pub uninterp spec fn exec_send_bytes(
    grantee: Seq<char>,
    from: Seq<char>,
    to: Seq<char>,
    denom: Seq<char>,
    amount: u128,
) -> Seq<u8>;

/// Relies on osmosis-std's `SendAuthorization::to_any` and prost's
/// `Message::encode_to_vec` on `MsgGrant`: the bytes depend on the fields alone.
#[verifier::external_body]
pub(crate) fn encode_send_grant(granter: &String, grantee: &String, limit: &Coin) -> (r: Vec<u8>)
    ensures
        r@ == send_grant_bytes(granter@, grantee@, limit.denom@, limit.amount),
{
    let coin = ProtoCoin { denom: limit.denom.clone(), amount: limit.amount.to_string() };
    let auth = SendAuthorization { spend_limit: vec![coin], allow_list: vec![] };
    let grant = Grant { authorization: Some(auth.to_any()), expiration: None };
    let msg = MsgGrant { granter: granter.clone(), grantee: grantee.clone(), grant: Some(grant) };
    prost::Message::encode_to_vec(&msg)
}

/// Relies on osmosis-std's `MsgSend::to_any` and prost's
/// `Message::encode_to_vec` on `MsgExec`: the bytes depend on the fields alone.
#[verifier::external_body]
pub(crate) fn encode_exec_send(grantee: &String, from: &String, to: &String, amount: &Coin) -> (r:
    Vec<u8>)
    ensures
        r@ == exec_send_bytes(grantee@, from@, to@, amount.denom@, amount.amount),
{
    let coin = ProtoCoin { denom: amount.denom.clone(), amount: amount.amount.to_string() };
    let send = MsgSend { from_address: from.clone(), to_address: to.clone(), amount: vec![coin] };
    let msg = MsgExec { grantee: grantee.clone(), msgs: vec![send.to_any()] };
    prost::Message::encode_to_vec(&msg)
}

} // verus!
