//! Why an invocation fails.
use vstd::prelude::*;

verus! {

/// The failures of the contract. Each one fails the whole invocation.
#[derive(Clone, Copy, Debug, PartialEq, Eq, Structural)]
pub enum ContractError {
    /// The attached coins are not exactly the ones required.
    InaccurateFunds {},
    /// No open offer has the given id.
    NoOfferFound {},
    /// The offer has no taker bound to it.
    InvalidTaker {},
    /// The sender may not invoke this command.
    Unauthorized {},
    /// A reply came with an id that the contract never issued.
    ReplyIdError(u64),
    /// A reply came while no match was pending.
    NoPendingMatch {},
    /// Every offer id has been used.
    OfferIdExhausted {},
}

} // verus!
