//! What callers send, what the host reports, and what is answered.

use crate::identity::Identity;
use vstd::prelude::*;

verus! {

/// An amount of money in one currency.
#[derive(Debug, PartialEq, Eq)]
pub struct Coin {
    pub denom: String,
    pub amount: u128,
}

/// Who called, and what was paid with the call.
#[derive(Debug, PartialEq, Eq)]
pub struct MessageInfo {
    pub sender: Identity,
    pub funds: Vec<Coin>,
}

/// What the host reports when a call runs: the time in seconds, the random
/// value where it offers one, and the funds that the raffle holds in its
/// currency.
#[derive(Debug, PartialEq, Eq)]
pub struct Env {
    pub time: u64,
    pub random: Option<Vec<u8>>,
    pub balance: u128,
}

/// Creates the raffle. Without an admin the creator becomes one.
#[derive(Debug, PartialEq, Eq)]
pub struct InstantiateMsg {
    pub admin: Option<Identity>,
}

/// The calls that change the raffle.
#[derive(Debug, PartialEq, Eq)]
pub enum ExecuteMsg {
    SetRaffle { secret: String, ticket_price: u128, end_time: u64 },
    StartRaffle {},
    BuyTicket {},
    SelectWinner {},
    ClaimPrize {},
}

/// What the host found when it checked a caller's credential.
#[derive(Debug, PartialEq, Eq)]
pub enum Credential {
    /// The credential is good and attests to this identity.
    Verified { account: Identity },
    /// The credential was not accepted.
    Rejected,
}

/// The calls that read the raffle.
#[derive(Debug, PartialEq, Eq)]
pub enum QueryMsg {
    RaffleInfo {},
    WithPermit { permit: Credential, query: QueryWithPermit },
}

/// The questions that only an authenticated caller may ask.
#[derive(Clone, Copy, Debug, PartialEq, Eq, Structural)]
pub enum QueryWithPermit {
    GetSecret {},
    GetTickets {},
}

/// The answers to queries.
#[derive(Debug, PartialEq, Eq)]
pub enum QueryAnswer {
    RaffleInfo {
        started: bool,
        ticket_price: Option<u128>,
        end_time: Option<u64>,
        total_tickets: u128,
        winner_selected: bool,
        prize_claimed: bool,
        winner: Option<Identity>,
    },
    GetSecret { secret: String },
    GetTickets { tickets: u128 },
}

/// What the host is to do after a call that succeeded.
#[derive(Debug, PartialEq, Eq)]
pub enum Response {
    /// Nothing beyond keeping the new state.
    Done,
    /// Report that the draw closed without a winner, as no ticket was sold.
    NoTickets,
    /// Send `amount` of the raffle's currency to `recipient`.
    PayWinner { recipient: Identity, amount: u128 },
}

/// An answer as the contracts see it.
pub enum AnswerView {
    RaffleInfo {
        started: bool,
        ticket_price: Option<u128>,
        end_time: Option<u64>,
        total_tickets: u128,
        winner_selected: bool,
        prize_claimed: bool,
        winner: Option<Seq<u8>>,
    },
    GetSecret { secret: Seq<char> },
    GetTickets { tickets: u128 },
}

/// A response as the contracts see it.
pub enum ResponseView {
    Done,
    NoTickets,
    PayWinner { recipient: Seq<u8>, amount: u128 },
}

/// An identity that may be missing, as the contracts see it.
pub open spec fn identity_view(id: Option<Identity>) -> Option<Seq<u8>> {
    match id {
        Some(i) => Some(i@),
        None => None,
    }
}

/// A seed that may be missing, as the contracts see it.
pub open spec fn seed_view(seed: Option<Vec<u8>>) -> Option<Seq<u8>> {
    match seed {
        Some(s) => Some(s@),
        None => None,
    }
}

impl View for QueryAnswer {
    type V = AnswerView;

    open spec fn view(&self) -> AnswerView {
        match *self {
            QueryAnswer::RaffleInfo {
                started,
                ticket_price,
                end_time,
                total_tickets,
                winner_selected,
                prize_claimed,
                winner,
            } => AnswerView::RaffleInfo {
                started,
                ticket_price,
                end_time,
                total_tickets,
                winner_selected,
                prize_claimed,
                winner: identity_view(winner),
            },
            QueryAnswer::GetSecret { secret } => AnswerView::GetSecret { secret: secret@ },
            QueryAnswer::GetTickets { tickets } => AnswerView::GetTickets { tickets },
        }
    }
}

impl View for Response {
    type V = ResponseView;

    open spec fn view(&self) -> ResponseView {
        match *self {
            Response::Done => ResponseView::Done,
            Response::NoTickets => ResponseView::NoTickets,
            Response::PayWinner { recipient, amount } => ResponseView::PayWinner {
                recipient: recipient@,
                amount,
            },
        }
    }
}

/// The name of the currency in which tickets are paid and the prize is
/// paid out.
pub open spec fn currency() -> Seq<char> {
    "uscrt"@
}

/// The name of the raffle's currency.
pub fn currency_name() -> (name: &'static str)
    ensures
        name@ == currency(),
{
    "uscrt"
}

/// Coin `i` is the first in the raffle's currency.
pub open spec fn pays_at(funds: Seq<Coin>, i: int) -> bool {
    &&& 0 <= i < funds.len()
    &&& funds[i].denom@ == currency()
    &&& forall|j: int| 0 <= j < i ==> (#[trigger] funds[j]).denom@ != currency()
}

/// The payment that came with a call: the amount of the first coin in the
/// raffle's currency, where there is one.
pub open spec fn payment_of(funds: Seq<Coin>) -> Option<u128> {
    if exists|i: int| pays_at(funds, i) {
        Some(funds[choose|i: int| pays_at(funds, i)].amount)
    } else {
        None
    }
}

/// The payment that came with a call.
pub fn find_payment(funds: &Vec<Coin>) -> (payment: Option<u128>)
    ensures
        payment == payment_of(funds@),
{
    let name: String = currency_name().to_owned();
    let n: usize = funds.len();
    let mut i: usize = 0;
    while i < n
        invariant
            i <= n,
            n == funds@.len(),
            name@ == currency(),
            forall|j: int| 0 <= j < i ==> (#[trigger] funds@[j]).denom@ != currency(),
        decreases n - i,
    {
        if funds[i].denom == name {
            proof {
                let at = i as int;
                assert(pays_at(funds@, at));
                let c = choose|k: int| pays_at(funds@, k);
                assert(pays_at(funds@, c));
                if c < at {
                    assert(funds@[c].denom@ != currency());
                }
                if at < c {
                    assert(funds@[at].denom@ != currency());
                }
            }
            return Some(funds[i].amount);
        }
        i += 1;
    }
    proof {
        if exists|k: int| pays_at(funds@, k) {
            let c = choose|k: int| pays_at(funds@, k);
            assert(funds@[c].denom@ != currency());
        }
    }
    None
}

} // verus!
