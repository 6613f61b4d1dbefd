//! The raffle itself: its state and the calls that change or read it.

use crate::draw::draw_ticket;
use crate::error::RaffleError;
use crate::identity::Identity;
use crate::laws::lemma_holding_within_total;
use crate::ledger::{
    lemma_credit, lemma_tickets_at, lemma_wins_at_interval, stakes, sum_tickets, winning_slot,
    TicketEntry, TicketLedger,
};
use crate::msg::{
    find_payment, identity_view, seed_view, Credential, Env, ExecuteMsg, InstantiateMsg,
    MessageInfo, QueryAnswer, QueryMsg, QueryWithPermit, Response,
};
use crate::rules::{
    buy_ticket_step, claim_prize_step, execute_step, permit_answer, query_answer, raffle_info,
    reads_seed, secret_answer, seed_suffices, select_winner_step, set_raffle_step,
    start_raffle_step, tickets_answer, Step,
};
use crate::state::{initial, inv, Raffle, RaffleModel, Terms};
use vstd::prelude::*;

verus! {

/// The state of the one raffle.
#[derive(Debug)]
pub struct RaffleState {
    admin: Identity,
    raffle: Option<Raffle>,
    started: bool,
    winner_selected: bool,
    prize_claimed: bool,
    tickets: TicketLedger,
    winner: Option<Identity>,
}

/// A configuration that may be missing, as the contracts see it.
pub open spec fn terms_view(raffle: Option<Raffle>) -> Option<Terms> {
    match raffle {
        Some(r) => Some(r@),
        None => None,
    }
}

impl View for RaffleState {
    type V = RaffleModel;

    closed spec fn view(&self) -> RaffleModel {
        RaffleModel {
            admin: self.admin@,
            raffle: terms_view(self.raffle),
            started: self.started,
            winner_selected: self.winner_selected,
            prize_claimed: self.prize_claimed,
            ledger: self.tickets@,
            total_tickets: self.tickets.recorded_total(),
            winner: identity_view(self.winner),
        }
    }
}

/// All that is kept of a raffle between calls, as it is read back from
/// where it was stored. Nothing is known of it until it has been checked.
#[derive(Debug, PartialEq, Eq)]
pub struct Snapshot {
    pub admin: Identity,
    pub raffle: Option<Raffle>,
    pub started: bool,
    pub winner_selected: bool,
    pub prize_claimed: bool,
    pub entries: Vec<TicketEntry>,
    pub total_tickets: u64,
    pub winner: Option<Identity>,
}

impl View for Snapshot {
    type V = RaffleModel;

    open spec fn view(&self) -> RaffleModel {
        RaffleModel {
            admin: self.admin@,
            raffle: terms_view(self.raffle),
            started: self.started,
            winner_selected: self.winner_selected,
            prize_claimed: self.prize_claimed,
            ledger: stakes(self.entries@),
            total_tickets: self.total_tickets as nat,
            winner: identity_view(self.winner),
        }
    }
}

impl RaffleState {
    /// The state is one that a raffle can be in.
    pub open spec fn wf(&self) -> bool {
        inv(self@)
    }

    /// The state that a snapshot holds, where it holds one that a raffle
    /// can be in.
    pub fn restore(snapshot: Snapshot) -> (r: Option<RaffleState>)
        ensures
            match r {
                Some(state) => state.wf() && state@ == snapshot@,
                None => !inv(snapshot@),
            },
    {
        let ghost m = snapshot@;
        let Snapshot {
            admin,
            raffle,
            started,
            winner_selected,
            prize_claimed,
            entries,
            total_tickets,
            winner,
        } = snapshot;
        let tickets: TicketLedger = match TicketLedger::from_entries(entries, total_tickets) {
            Some(tickets) => tickets,
            None => {
                return None;
            },
        };
        let priced: bool = match &raffle {
            Some(terms) => terms.ticket_price > 0,
            None => true,
        };
        let configured: bool = raffle.is_some();
        let drawn: bool = winner.is_some();
        let winner_holds: bool = match &winner {
            Some(w) => tickets.get(w) > 0,
            None => true,
        };
        if !priced || (started && !configured) || (winner_selected && !configured) || (tickets.len()
            > 0 && !started) || (drawn && !winner_selected) || (prize_claimed && !drawn)
            || !winner_holds {
            return None;
        }
        let state = RaffleState {
            admin,
            raffle,
            started,
            winner_selected,
            prize_claimed,
            tickets,
            winner,
        };
        assert(state@ == m);
        Some(state)
    }

    /// All that is to be kept of the state.
    pub fn snapshot(&self) -> (snapshot: Snapshot)
        requires
            self.wf(),
        ensures
            snapshot@ == self@,
    {
        let raffle: Option<Raffle> = match &self.raffle {
            Some(raffle) => Some(
                Raffle {
                    end_time: raffle.end_time,
                    ticket_price: raffle.ticket_price,
                    secret: raffle.secret.clone(),
                },
            ),
            None => None,
        };
        let winner: Option<Identity> = match &self.winner {
            Some(winner) => Some(winner.clone()),
            None => None,
        };
        Snapshot {
            admin: self.admin.clone(),
            raffle,
            started: self.started,
            winner_selected: self.winner_selected,
            prize_claimed: self.prize_claimed,
            entries: self.tickets.entries(),
            total_tickets: self.tickets.total(),
            winner,
        }
    }

    /// The admin.
    pub fn admin(&self) -> (admin: &Identity)
        ensures
            admin@ == self@.admin,
    {
        &self.admin
    }

    /// The configuration, once there is one.
    pub fn raffle(&self) -> (raffle: &Option<Raffle>)
        ensures
            terms_view(*raffle) == self@.raffle,
    {
        &self.raffle
    }

    /// Whether ticket sales have been opened.
    pub fn started(&self) -> (started: bool)
        ensures
            started == self@.started,
    {
        self.started
    }

    /// Whether the draw has been made.
    pub fn winner_selected(&self) -> (selected: bool)
        ensures
            selected == self@.winner_selected,
    {
        self.winner_selected
    }

    /// Whether the prize has been paid out.
    pub fn prize_claimed(&self) -> (claimed: bool)
        ensures
            claimed == self@.prize_claimed,
    {
        self.prize_claimed
    }

    /// The ledger.
    pub fn tickets(&self) -> (ledger: &TicketLedger)
        ensures
            ledger@ == self@.ledger,
            ledger.recorded_total() == self@.total_tickets,
    {
        &self.tickets
    }

    /// The number of tickets sold.
    pub fn total_tickets(&self) -> (total: u64)
        requires
            self.wf(),
        ensures
            total == self@.total_tickets,
            total == sum_tickets(self@.ledger),
    {
        self.tickets.total()
    }

    /// The winner, where the draw found one.
    pub fn winner(&self) -> (winner: &Option<Identity>)
        ensures
            identity_view(*winner) == self@.winner,
    {
        &self.winner
    }

    /// Whether a draw at the given time would read the host's random value.
    pub fn draw_reads_seed(&self, time: u64) -> (reads: bool)
        requires
            self.wf(),
        ensures
            reads == reads_seed(self@, time),
    {
        match &self.raffle {
            Some(raffle) => time >= raffle.end_time && !self.winner_selected
                && self.tickets.total() > 0,
            None => false,
        }
    }
}

/// A call did what its step says: it gave the step's response and left the
/// raffle as the step has it, or it gave the step's error and changed
/// nothing.
pub open spec fn carried_out(
    r: Result<Response, RaffleError>,
    before: RaffleModel,
    after: RaffleModel,
    step: Step,
) -> bool {
    match step {
        Ok((next, response)) => r matches Ok(given) && given@ == response && after == next,
        Err(e) => r matches Err(got) && got == e && after == before,
    }
}

/// Sells tickets to the caller for the payment that came with the call.
pub fn try_buy_ticket(state: &mut RaffleState, env: Env, info: MessageInfo) -> (r: Result<
    Response,
    RaffleError,
>)
    requires
        old(state).wf(),
    ensures
        final(state).wf(),
        carried_out(
            r,
            old(state)@,
            final(state)@,
            buy_ticket_step(old(state)@, info.sender@, env.time, info.funds@),
        ),
{
    if !state.started {
        return Err(RaffleError::NotStarted);
    }
    let (end_time, ticket_price): (u64, u128) = match &state.raffle {
        Some(raffle) => (raffle.end_time, raffle.ticket_price),
        None => {
            return Err(RaffleError::NotConfigured);
        },
    };
    if env.time >= end_time {
        return Err(RaffleError::RaffleEnded);
    }
    if info.sender == state.admin {
        return Err(RaffleError::AdminCannotBuy);
    }
    let amount: u128 = match find_payment(&info.funds) {
        Some(amount) => amount,
        None => {
            return Err(RaffleError::NoFundsSent);
        },
    };
    if amount % ticket_price != 0 {
        return Err(RaffleError::NotAMultipleOfPrice);
    }
    let bought_wide: u128 = amount / ticket_price;
    if bought_wide > u64::MAX as u128 {
        return Err(RaffleError::Overflow);
    }
    let bought: u64 = bought_wide as u64;
    proof {
        lemma_holding_within_total(state@, info.sender@);
        lemma_credit(state@.ledger, info.sender@, bought as nat);
    }
    match state.tickets.add(&info.sender, bought) {
        Ok(_) => Ok(Response::Done),
        Err(e) => Err(e),
    }
}

/// Makes the draw once ticket sales are over.
pub fn try_select_winner(state: &mut RaffleState, env: Env) -> (r: Result<Response, RaffleError>)
    requires
        old(state).wf(),
        seed_suffices(old(state)@, env.time, seed_view(env.random)),
    ensures
        final(state).wf(),
        carried_out(
            r,
            old(state)@,
            final(state)@,
            select_winner_step(old(state)@, env.time, seed_view(env.random)),
        ),
{
    let end_time: u64 = match &state.raffle {
        Some(raffle) => raffle.end_time,
        None => {
            return Err(RaffleError::NotConfigured);
        },
    };
    if env.time < end_time {
        return Err(RaffleError::NotYetEnded);
    }
    if state.winner_selected {
        return Err(RaffleError::AlreadySelected);
    }
    let total: u64 = state.tickets.total();
    if total == 0 {
        state.winner = None;
        state.winner_selected = true;
        return Ok(Response::NoTickets);
    }
    let seed: Vec<u8> = match env.random {
        Some(seed) => seed,
        None => {
            return Err(RaffleError::RandomnessUnavailable);
        },
    };
    let ticket: u64 = draw_ticket(&seed, total);
    let winner = state.tickets.winner_for(ticket);
    proof {
        let slot = winning_slot(state@.ledger, ticket as nat);
        lemma_wins_at_interval(state@.ledger, ticket as nat, slot);
        lemma_tickets_at(state@.ledger, slot);
    }
    state.winner = Some(winner);
    state.winner_selected = true;
    Ok(Response::Done)
}

/// Pays the funds that the raffle holds out to the winner.
pub fn try_claim_prize(state: &mut RaffleState, env: Env, info: MessageInfo) -> (r: Result<
    Response,
    RaffleError,
>)
    requires
        old(state).wf(),
    ensures
        final(state).wf(),
        carried_out(
            r,
            old(state)@,
            final(state)@,
            claim_prize_step(old(state)@, info.sender@, env.balance),
        ),
{
    if !state.winner_selected {
        return Err(RaffleError::WinnerNotSelected);
    }
    if state.prize_claimed {
        return Err(RaffleError::AlreadyClaimed);
    }
    let is_winner: bool = match &state.winner {
        Some(winner) => info.sender == *winner,
        None => {
            return Err(RaffleError::NoWinner);
        },
    };
    if !is_winner {
        return Err(RaffleError::NotWinner);
    }
    if env.balance == 0 {
        return Err(RaffleError::NothingToClaim);
    }
    state.prize_claimed = true;
    Ok(Response::PayWinner { recipient: info.sender, amount: env.balance })
}

/// Stores the configuration of the raffle for the admin.
pub fn try_set_raffle(
    state: &mut RaffleState,
    sender: Identity,
    secret: String,
    ticket_price: u128,
    end_time: u64,
) -> (r: Result<Response, RaffleError>)
    requires
        old(state).wf(),
    ensures
        final(state).wf(),
        carried_out(
            r,
            old(state)@,
            final(state)@,
            set_raffle_step(old(state)@, sender@, secret@, ticket_price, end_time),
        ),
{
    if !(sender == state.admin) {
        return Err(RaffleError::Unauthorized);
    }
    if state.started {
        return Err(RaffleError::AlreadyStarted);
    }
    if ticket_price == 0 {
        return Err(RaffleError::ZeroPrice);
    }
    state.raffle = Some(Raffle { end_time, ticket_price, secret });
    Ok(Response::Done)
}

/// Opens ticket sales for the admin.
pub fn try_start_raffle(state: &mut RaffleState, sender: Identity) -> (r: Result<
    Response,
    RaffleError,
>)
    requires
        old(state).wf(),
    ensures
        final(state).wf(),
        carried_out(r, old(state)@, final(state)@, start_raffle_step(old(state)@, sender@)),
{
    if !(sender == state.admin) {
        return Err(RaffleError::Unauthorized);
    }
    if state.started {
        return Err(RaffleError::AlreadyStarted);
    }
    if state.raffle.is_none() {
        return Err(RaffleError::NotConfigured);
    }
    state.started = true;
    Ok(Response::Done)
}

/// Creates the raffle: the admin is the one that the message names, or
/// else the creator.
pub fn instantiate(info: MessageInfo, msg: InstantiateMsg) -> (state: RaffleState)
    ensures
        state.wf(),
        state@ == initial(
            match msg.admin {
                Some(admin) => admin@,
                None => info.sender@,
            },
        ),
{
    let admin = match msg.admin {
        Some(admin) => admin,
        None => info.sender,
    };
    RaffleState {
        admin,
        raffle: None,
        started: false,
        winner_selected: false,
        prize_claimed: false,
        tickets: TicketLedger::new(),
        winner: None,
    }
}

/// Carries out a call that changes the raffle. A call that is refused
/// changes nothing.
pub fn execute(state: &mut RaffleState, env: Env, info: MessageInfo, msg: ExecuteMsg) -> (r: Result<
    Response,
    RaffleError,
>)
    requires
        old(state).wf(),
        msg is SelectWinner ==> seed_suffices(old(state)@, env.time, seed_view(env.random)),
    ensures
        final(state).wf(),
        carried_out(r, old(state)@, final(state)@, execute_step(old(state)@, env, info, msg)),
{
    match msg {
        ExecuteMsg::SetRaffle { secret, ticket_price, end_time } => try_set_raffle(
            state,
            info.sender,
            secret,
            ticket_price,
            end_time,
        ),
        ExecuteMsg::StartRaffle {  } => try_start_raffle(state, info.sender),
        ExecuteMsg::BuyTicket {  } => try_buy_ticket(state, env, info),
        ExecuteMsg::SelectWinner {  } => try_select_winner(state, env),
        ExecuteMsg::ClaimPrize {  } => try_claim_prize(state, env, info),
    }
}

/// A query gave the answer that the rules give, or their error.
pub open spec fn answered(
    r: Result<QueryAnswer, RaffleError>,
    answer: Result<crate::msg::AnswerView, RaffleError>,
) -> bool {
    match answer {
        Ok(view) => r matches Ok(given) && given@ == view,
        Err(e) => r matches Err(got) && got == e,
    }
}

/// What everyone may know of the raffle. This query never fails.
pub fn query_raffle_info(state: &RaffleState) -> (r: Result<QueryAnswer, RaffleError>)
    requires
        state.wf(),
    ensures
        answered(r, Ok(raffle_info(state@))),
{
    let (ticket_price, end_time): (Option<u128>, Option<u64>) = match &state.raffle {
        Some(raffle) => (Some(raffle.ticket_price), Some(raffle.end_time)),
        None => (None, None),
    };
    let winner: Option<Identity> = if state.winner_selected {
        match &state.winner {
            Some(winner) => Some(winner.clone()),
            None => None,
        }
    } else {
        None
    };
    Ok(
        QueryAnswer::RaffleInfo {
            started: state.started,
            ticket_price,
            end_time,
            total_tickets: state.tickets.total() as u128,
            winner_selected: state.winner_selected,
            prize_claimed: state.prize_claimed,
            winner,
        },
    )
}

/// The hidden phrase, for the winner alone.
pub fn query_secret(state: &RaffleState, sender: &Identity) -> (r: Result<QueryAnswer, RaffleError>)
    requires
        state.wf(),
    ensures
        answered(r, secret_answer(state@, sender@)),
{
    if !state.winner_selected {
        return Err(RaffleError::WinnerNotSelected);
    }
    let is_winner: bool = match &state.winner {
        Some(winner) => *sender == *winner,
        None => {
            return Err(RaffleError::NoWinner);
        },
    };
    if !is_winner {
        return Err(RaffleError::NotWinner);
    }
    match &state.raffle {
        Some(raffle) => Ok(QueryAnswer::GetSecret { secret: raffle.secret.clone() }),
        None => Err(RaffleError::NotConfigured),
    }
}

/// The number of tickets that the caller holds. This query never fails.
pub fn query_tickets(state: &RaffleState, sender: &Identity) -> (r: Result<QueryAnswer, RaffleError>)
    requires
        state.wf(),
    ensures
        answered(r, Ok(tickets_answer(state@, sender@))),
{
    let tickets: u64 = state.tickets.get(sender);
    Ok(QueryAnswer::GetTickets { tickets: tickets as u128 })
}

/// Answers a question of a caller whose credential the host has checked.
pub fn permit_queries(state: &RaffleState, permit: Credential, query: QueryWithPermit) -> (r: Result<
    QueryAnswer,
    RaffleError,
>)
    requires
        state.wf(),
    ensures
        answered(r, permit_answer(state@, permit, query)),
{
    let account: Identity = match permit {
        Credential::Verified { account } => account,
        Credential::Rejected => {
            return Err(RaffleError::InvalidCredential);
        },
    };
    match query {
        QueryWithPermit::GetSecret {  } => query_secret(state, &account),
        QueryWithPermit::GetTickets {  } => query_tickets(state, &account),
    }
}

/// Answers a query. Queries change nothing.
pub fn query(state: &RaffleState, msg: QueryMsg) -> (r: Result<QueryAnswer, RaffleError>)
    requires
        state.wf(),
    ensures
        answered(r, query_answer(state@, msg)),
{
    match msg {
        QueryMsg::RaffleInfo {  } => query_raffle_info(state),
        QueryMsg::WithPermit { permit, query } => permit_queries(state, permit, query),
    }
}

} // verus!
