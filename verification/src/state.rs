//! What a raffle consists of, and what holds of it at all times.

use crate::ledger::{distinct_holders, sum_tickets, tickets_of, Stake};
use vstd::prelude::*;

verus! {

/// The configuration of the raffle: when ticket sales end, in seconds, what
/// a ticket costs, and the phrase that only the winner may read.
#[derive(Debug, PartialEq, Eq)]
pub struct Raffle {
    pub end_time: u64,
    pub ticket_price: u128,
    pub secret: String,
}

/// The configuration as the contracts see it.
pub struct Terms {
    pub end_time: u64,
    pub ticket_price: u128,
    pub secret: Seq<char>,
}

impl View for Raffle {
    type V = Terms;

    open spec fn view(&self) -> Terms {
        Terms { end_time: self.end_time, ticket_price: self.ticket_price, secret: self.secret@ }
    }
}

/// The raffle as the contracts see it.
pub struct RaffleModel {
    /// The one identity that may configure and start the raffle.
    pub admin: Seq<u8>,
    /// The configuration, once there is one.
    pub raffle: Option<Terms>,
    /// Ticket sales have been opened.
    pub started: bool,
    /// The draw has been made.
    pub winner_selected: bool,
    /// The prize has been paid out.
    pub prize_claimed: bool,
    /// Who holds how many tickets, in the order of first purchase.
    pub ledger: Seq<Stake>,
    /// The number of tickets sold, kept beside the ledger.
    pub total_tickets: nat,
    /// The winner, where the draw found one.
    pub winner: Option<Seq<u8>>,
}

/// A raffle that has just been created for an admin.
pub open spec fn initial(admin: Seq<u8>) -> RaffleModel {
    RaffleModel {
        admin,
        raffle: None,
        started: false,
        winner_selected: false,
        prize_claimed: false,
        ledger: Seq::empty(),
        total_tickets: 0,
        winner: None,
    }
}

/// What holds of a raffle at all times: the total is the sum of the ledger,
/// in which nobody has two lines; a price is never zero; and each milestone
/// rests on what it needs.
pub open spec fn inv(m: RaffleModel) -> bool {
    &&& distinct_holders(m.ledger)
    &&& m.total_tickets == sum_tickets(m.ledger)
    &&& m.total_tickets <= u64::MAX
    &&& (m.raffle matches Some(terms) ==> terms.ticket_price > 0)
    &&& (m.started ==> m.raffle is Some)
    &&& (m.winner_selected ==> m.raffle is Some)
    &&& (m.ledger.len() > 0 ==> m.started)
    &&& (m.winner is Some ==> m.winner_selected)
    &&& (m.prize_claimed ==> m.winner is Some)
    &&& (m.winner matches Some(w) ==> tickets_of(m.ledger, w) > 0)
}

} // verus!
