//! The rules of a single raffle: configuration, ticket sales, the weighted
//! draw, the one payout and the winner's access to the hidden phrase.
//!
//! The library decides; it neither stores nor sends anything. Its caller
//! hands it the state of the raffle and what the host reports for a call
//! (who calls, what was paid, the time, the random value, the funds held,
//! the verdict on a credential) and gets back the new state and what the
//! host is to do. A call that is refused leaves the state as it was.
//!
//! `state` and `rules` describe the raffle and its transitions as
//! mathematics, `contract` holds the executable calls that follow them,
//! and `laws` states what holds of every sequence of calls.

pub mod contract;
pub mod draw;
pub mod error;
pub mod identity;
pub mod laws;
pub mod ledger;
pub mod msg;
pub mod rules;
pub mod state;
