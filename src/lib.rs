//! Peer-to-peer atomic token swaps: an offer book whose lifecycle
//! (create, bind a taker, confirm custody, settle) is a verified state machine.

pub mod decimal;
pub mod error;
pub mod msg;
pub mod response;
pub mod encode;
pub mod state;
pub mod execute;
pub mod query;
pub mod contract;
pub mod laws;
