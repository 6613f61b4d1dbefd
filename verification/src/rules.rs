//! The transitions of the raffle and the answers to queries, as functions
//! of the raffle's model.

use crate::draw::drawn_ticket;
use crate::error::RaffleError;
use crate::ledger::{credit, tickets_of, winning_slot};
use crate::msg::{
    payment_of, seed_view, AnswerView, Coin, Credential, Env, ExecuteMsg, MessageInfo, QueryMsg,
    QueryWithPermit, ResponseView,
};
use crate::state::{RaffleModel, Terms};
use vstd::prelude::*;

verus! {

/// What a call leads to: the raffle after it and the response, or the
/// reason for which it is refused.
pub type Step = Result<(RaffleModel, ResponseView), RaffleError>;

/// The raffle after a call: a refused call changes nothing.
pub open spec fn state_after(m: RaffleModel, step: Step) -> RaffleModel {
    match step {
        Ok((next, _)) => next,
        Err(_) => m,
    }
}

/// The admin stores the configuration, as long as sales have not started.
pub open spec fn set_raffle_step(
    m: RaffleModel,
    sender: Seq<u8>,
    secret: Seq<char>,
    ticket_price: u128,
    end_time: u64,
) -> Step {
    if sender != m.admin {
        Err(RaffleError::Unauthorized)
    } else if m.started {
        Err(RaffleError::AlreadyStarted)
    } else if ticket_price == 0 {
        Err(RaffleError::ZeroPrice)
    } else {
        Ok(
            (
                RaffleModel { raffle: Some(Terms { end_time, ticket_price, secret }), ..m },
                ResponseView::Done,
            ),
        )
    }
}

/// The admin opens ticket sales of a configured raffle.
pub open spec fn start_raffle_step(m: RaffleModel, sender: Seq<u8>) -> Step {
    if sender != m.admin {
        Err(RaffleError::Unauthorized)
    } else if m.started {
        Err(RaffleError::AlreadyStarted)
    } else if m.raffle is None {
        Err(RaffleError::NotConfigured)
    } else {
        Ok((RaffleModel { started: true, ..m }, ResponseView::Done))
    }
}

/// The number of tickets that a payment buys at a price.
pub open spec fn tickets_bought(amount: u128, ticket_price: u128) -> nat {
    (amount / ticket_price) as nat
}

/// Anyone but the admin buys tickets while sales are open, for a payment
/// that is a whole number of ticket prices.
pub open spec fn buy_ticket_step(m: RaffleModel, sender: Seq<u8>, time: u64, funds: Seq<Coin>) -> Step {
    if !m.started {
        Err(RaffleError::NotStarted)
    } else {
        match m.raffle {
            None => Err(RaffleError::NotConfigured),
            Some(terms) => {
                if time >= terms.end_time {
                    Err(RaffleError::RaffleEnded)
                } else if sender == m.admin {
                    Err(RaffleError::AdminCannotBuy)
                } else {
                    match payment_of(funds) {
                        None => Err(RaffleError::NoFundsSent),
                        Some(amount) => {
                            let bought = tickets_bought(amount, terms.ticket_price);
                            if amount % terms.ticket_price != 0 {
                                Err(RaffleError::NotAMultipleOfPrice)
                            } else if bought > u64::MAX || tickets_of(m.ledger, sender) + bought
                                > u64::MAX || m.total_tickets + bought > u64::MAX {
                                Err(RaffleError::Overflow)
                            } else {
                                Ok(
                                    (
                                        RaffleModel {
                                            ledger: credit(m.ledger, sender, bought),
                                            total_tickets: m.total_tickets + bought,
                                            ..m
                                        },
                                        ResponseView::Done,
                                    ),
                                )
                            }
                        },
                    }
                }
            },
        }
    }
}

/// The draw reads the host's random value: it is due, and tickets were sold.
pub open spec fn reads_seed(m: RaffleModel, time: u64) -> bool {
    &&& m.raffle matches Some(terms)
    &&& time >= terms.end_time
    &&& !m.winner_selected
    &&& m.total_tickets > 0
}

/// Once sales are over, the draw is made, once: with no ticket sold it ends
/// without a winner; otherwise the host's random value picks a ticket, and
/// the holder of the first line whose running sum exceeds the ticket's
/// number wins.
pub open spec fn select_winner_step(m: RaffleModel, time: u64, random: Option<Seq<u8>>) -> Step {
    match m.raffle {
        None => Err(RaffleError::NotConfigured),
        Some(terms) => {
            if time < terms.end_time {
                Err(RaffleError::NotYetEnded)
            } else if m.winner_selected {
                Err(RaffleError::AlreadySelected)
            } else if m.total_tickets == 0 {
                Ok(
                    (
                        RaffleModel { winner_selected: true, winner: None, ..m },
                        ResponseView::NoTickets,
                    ),
                )
            } else {
                match random {
                    None => Err(RaffleError::RandomnessUnavailable),
                    Some(seed) => {
                        let ticket = drawn_ticket(seed, m.total_tickets);
                        let winner = m.ledger[winning_slot(m.ledger, ticket)].holder;
                        Ok(
                            (
                                RaffleModel { winner_selected: true, winner: Some(winner), ..m },
                                ResponseView::Done,
                            ),
                        )
                    },
                }
            }
        },
    }
}

/// The winner takes all the funds that the raffle holds, once.
pub open spec fn claim_prize_step(m: RaffleModel, sender: Seq<u8>, balance: u128) -> Step {
    if !m.winner_selected {
        Err(RaffleError::WinnerNotSelected)
    } else if m.prize_claimed {
        Err(RaffleError::AlreadyClaimed)
    } else {
        match m.winner {
            None => Err(RaffleError::NoWinner),
            Some(winner) => {
                if sender != winner {
                    Err(RaffleError::NotWinner)
                } else if balance == 0 {
                    Err(RaffleError::NothingToClaim)
                } else {
                    Ok(
                        (
                            RaffleModel { prize_claimed: true, ..m },
                            ResponseView::PayWinner { recipient: sender, amount: balance },
                        ),
                    )
                }
            },
        }
    }
}

/// What a call that changes the raffle leads to.
pub open spec fn execute_step(m: RaffleModel, env: Env, info: MessageInfo, msg: ExecuteMsg) -> Step {
    match msg {
        ExecuteMsg::SetRaffle { secret, ticket_price, end_time } => set_raffle_step(
            m,
            info.sender@,
            secret@,
            ticket_price,
            end_time,
        ),
        ExecuteMsg::StartRaffle {  } => start_raffle_step(m, info.sender@),
        ExecuteMsg::BuyTicket {  } => buy_ticket_step(m, info.sender@, env.time, info.funds@),
        ExecuteMsg::SelectWinner {  } => select_winner_step(m, env.time, seed_view(env.random)),
        ExecuteMsg::ClaimPrize {  } => claim_prize_step(m, info.sender@, env.balance),
    }
}

/// Where a call reads the host's random value, the value has the bytes
/// that the draw reads.
pub open spec fn seed_suffices(m: RaffleModel, time: u64, random: Option<Seq<u8>>) -> bool {
    reads_seed(m, time) ==> (random matches Some(seed) ==> seed.len() >= crate::draw::SEED_BYTES)
}

/// What everyone may know of the raffle. The price and the end time show
/// as soon as the raffle is configured, the winner once the draw found one.
pub open spec fn raffle_info(m: RaffleModel) -> AnswerView {
    AnswerView::RaffleInfo {
        started: m.started,
        ticket_price: match m.raffle {
            Some(terms) => Some(terms.ticket_price),
            None => None,
        },
        end_time: match m.raffle {
            Some(terms) => Some(terms.end_time),
            None => None,
        },
        total_tickets: m.total_tickets as u128,
        winner_selected: m.winner_selected,
        prize_claimed: m.prize_claimed,
        winner: if m.winner_selected {
            m.winner
        } else {
            None
        },
    }
}

/// The hidden phrase, for the winner alone.
pub open spec fn secret_answer(m: RaffleModel, sender: Seq<u8>) -> Result<AnswerView, RaffleError> {
    if !m.winner_selected {
        Err(RaffleError::WinnerNotSelected)
    } else {
        match m.winner {
            None => Err(RaffleError::NoWinner),
            Some(winner) => {
                if sender != winner {
                    Err(RaffleError::NotWinner)
                } else {
                    match m.raffle {
                        None => Err(RaffleError::NotConfigured),
                        Some(terms) => Ok(AnswerView::GetSecret { secret: terms.secret }),
                    }
                }
            },
        }
    }
}

/// The number of tickets that the caller holds.
pub open spec fn tickets_answer(m: RaffleModel, sender: Seq<u8>) -> AnswerView {
    AnswerView::GetTickets { tickets: tickets_of(m.ledger, sender) as u128 }
}

/// The answer to a question of an authenticated caller.
pub open spec fn permit_answer(m: RaffleModel, permit: Credential, query: QueryWithPermit) -> Result<
    AnswerView,
    RaffleError,
> {
    match permit {
        Credential::Rejected => Err(RaffleError::InvalidCredential),
        Credential::Verified { account } => match query {
            QueryWithPermit::GetSecret {  } => secret_answer(m, account@),
            QueryWithPermit::GetTickets {  } => Ok(tickets_answer(m, account@)),
        },
    }
}

/// The answer to a query.
pub open spec fn query_answer(m: RaffleModel, msg: QueryMsg) -> Result<AnswerView, RaffleError> {
    match msg {
        QueryMsg::RaffleInfo {  } => Ok(raffle_info(m)),
        QueryMsg::WithPermit { permit, query } => permit_answer(m, permit, query),
    }
}

} // verus!
