//! Verified core of the alkanes lottery, lending and ticket-collector contracts.
//!
//! The contracts keep their state in host storage and talk to the host runtime
//! for their context; this library holds the decisions they make over plain
//! values: which inputs are accepted, how pools, shares, fees and tickets move,
//! and what each call answers.

pub mod error;
pub mod id;
pub mod wide;
pub mod entropy;
pub mod ledger;
pub mod lottery;
pub mod lending;
pub mod ticket;
pub mod laws;
