//! What holds of the raffle whatever calls are made.

use crate::ledger::{
    distinct_holders, holds, lemma_credit, lemma_line_within_sum, lemma_running_sum_monotone,
    lemma_running_sum_step, lemma_tickets_at, lemma_winner_unique, lemma_wins_at_interval,
    running_sum, slot_of, sum_tickets, tickets_of, winning_slot, Stake,
};
use crate::msg::{payment_of, seed_view, Coin, Env, ExecuteMsg, MessageInfo};
use crate::draw::{drawn_ticket, seed_value};
use crate::error::RaffleError;
use crate::msg::ResponseView;
use crate::rules::{
    buy_ticket_step, claim_prize_step, execute_step, reads_seed, select_winner_step,
    set_raffle_step, start_raffle_step, state_after, tickets_bought,
};
use crate::state::{initial, inv, RaffleModel};
use vstd::arithmetic::div_mod::lemma_fundamental_div_mod_converse;
use vstd::prelude::*;
use vstd::set_lib::{lemma_int_range, set_int_range};

verus! {

/// One call that changes the raffle, with what the host reports for it.
pub struct Call {
    pub env: Env,
    pub info: MessageInfo,
    pub msg: ExecuteMsg,
}

/// The raffle after one call.
pub open spec fn after_call(m: RaffleModel, call: Call) -> RaffleModel {
    state_after(m, execute_step(m, call.env, call.info, call.msg))
}

/// The raffle after a sequence of calls.
pub open spec fn after_calls(m: RaffleModel, calls: Seq<Call>) -> RaffleModel
    decreases calls.len(),
{
    if calls.len() == 0 {
        m
    } else {
        after_call(after_calls(m, calls.drop_last()), calls.last())
    }
}

/// No participant holds more tickets than were sold.
pub proof fn lemma_holding_within_total(m: RaffleModel, who: Seq<u8>)
    requires
        inv(m),
    ensures
        tickets_of(m.ledger, who) <= m.total_tickets,
{
    if holds(m.ledger, who) {
        lemma_line_within_sum(m.ledger, slot_of(m.ledger, who));
    }
}

/// A new raffle is in a state that a raffle can be in.
pub proof fn lemma_initial_is_valid(admin: Seq<u8>)
    ensures
        inv(initial(admin)),
{
    assert(!holds(initial(admin).ledger, admin));
}

/// Every call, accepted or refused, leaves the raffle in a state that a
/// raffle can be in.
pub proof fn lemma_call_keeps_invariant(m: RaffleModel, call: Call)
    requires
        inv(m),
    ensures
        inv(after_call(m, call)),
{
    let next = after_call(m, call);
    match call.msg {
        ExecuteMsg::SetRaffle { .. } => {},
        ExecuteMsg::StartRaffle {  } => {},
        ExecuteMsg::BuyTicket {  } => {
            let sender = call.info.sender@;
            let step = buy_ticket_step(m, sender, call.env.time, call.info.funds@);
            if step is Ok {
                let terms = m.raffle->0;
                let bought = tickets_bought(payment_of(call.info.funds@)->0, terms.ticket_price);
                lemma_credit(m.ledger, sender, bought);
                assert(next.ledger.len() > 0 ==> next.started);
                if m.winner is Some {
                    let w = m.winner->0;
                    assert(tickets_of(next.ledger, w) >= tickets_of(m.ledger, w));
                }
            }
        },
        ExecuteMsg::SelectWinner {  } => {
            let step = select_winner_step(m, call.env.time, seed_view(call.env.random));
            if step is Ok && m.total_tickets > 0 {
                let seed = seed_view(call.env.random)->0;
                let ticket = drawn_ticket(seed, m.total_tickets);
                assert(ticket < m.total_tickets) by (nonlinear_arith)
                    requires
                        ticket == seed_value(seed) % m.total_tickets,
                        m.total_tickets > 0,
                ;
                lemma_winner_unique(m.ledger, ticket);
                let slot = winning_slot(m.ledger, ticket);
                lemma_wins_at_interval(m.ledger, ticket, slot);
                lemma_tickets_at(m.ledger, slot);
            }
        },
        ExecuteMsg::ClaimPrize {  } => {},
    }
}

/// At every point of every sequence of calls on a new raffle, the total is
/// the sum of the tickets that the participants hold, and the state is one
/// that a raffle can be in.
pub proof fn lemma_total_is_sum_of_holdings(admin: Seq<u8>, calls: Seq<Call>, k: int)
    requires
        0 <= k <= calls.len(),
    ensures
        inv(after_calls(initial(admin), calls.take(k))),
        after_calls(initial(admin), calls.take(k)).total_tickets == sum_tickets(
            after_calls(initial(admin), calls.take(k)).ledger,
        ),
    decreases k,
{
    let prefix = calls.take(k);
    if k == 0 {
        lemma_initial_is_valid(admin);
    } else {
        assert(prefix.drop_last() =~= calls.take(k - 1));
        lemma_total_is_sum_of_holdings(admin, calls, k - 1);
        lemma_call_keeps_invariant(after_calls(initial(admin), calls.take(k - 1)), prefix.last());
    }
}

/// Whatever the state, a call of anyone but the admin to configure or to
/// start the raffle is refused as unauthorized.
pub proof fn lemma_only_admin_configures(
    m: RaffleModel,
    sender: Seq<u8>,
    secret: Seq<char>,
    ticket_price: u128,
    end_time: u64,
)
    requires
        sender != m.admin,
    ensures
        set_raffle_step(m, sender, secret, ticket_price, end_time) == Err::<
            (RaffleModel, ResponseView),
            RaffleError,
        >(RaffleError::Unauthorized),
        start_raffle_step(m, sender) == Err::<(RaffleModel, ResponseView), RaffleError>(
            RaffleError::Unauthorized,
        ),
{
}

/// Once the raffle has started it cannot be configured.
pub proof fn lemma_started_refuses_configuration(
    m: RaffleModel,
    sender: Seq<u8>,
    secret: Seq<char>,
    ticket_price: u128,
    end_time: u64,
)
    requires
        m.started,
    ensures
        set_raffle_step(m, sender, secret, ticket_price, end_time) is Err,
        start_raffle_step(m, sender) is Err,
{
}

/// Once the draw has been made it cannot be made again.
pub proof fn lemma_drawn_refuses_draw(m: RaffleModel, time: u64, random: Option<Seq<u8>>)
    requires
        m.winner_selected,
    ensures
        select_winner_step(m, time, random) is Err,
{
}

/// Once the prize has been paid out it cannot be claimed again.
pub proof fn lemma_claimed_refuses_claim(m: RaffleModel, sender: Seq<u8>, balance: u128)
    requires
        m.prize_claimed,
    ensures
        claim_prize_step(m, sender, balance) is Err,
{
}

/// No call takes a milestone back, changes the admin, changes the
/// configuration of a started raffle, or changes the outcome of the draw.
pub proof fn lemma_milestones_stay(m: RaffleModel, call: Call)
    ensures
        m.started ==> after_call(m, call).started,
        m.winner_selected ==> after_call(m, call).winner_selected,
        m.prize_claimed ==> after_call(m, call).prize_claimed,
        after_call(m, call).admin == m.admin,
        m.started ==> after_call(m, call).raffle == m.raffle,
        m.winner_selected ==> after_call(m, call).winner == m.winner,
{
}

/// What one call leaves in place, a sequence of calls leaves in place.
pub proof fn lemma_milestones_stay_for_good(m: RaffleModel, calls: Seq<Call>)
    ensures
        m.started ==> after_calls(m, calls).started,
        m.winner_selected ==> after_calls(m, calls).winner_selected,
        m.prize_claimed ==> after_calls(m, calls).prize_claimed,
        after_calls(m, calls).admin == m.admin,
        m.started ==> after_calls(m, calls).raffle == m.raffle,
        m.winner_selected ==> after_calls(m, calls).winner == m.winner,
    decreases calls.len(),
{
    if calls.len() > 0 {
        lemma_milestones_stay_for_good(m, calls.drop_last());
        lemma_milestones_stay(after_calls(m, calls.drop_last()), calls.last());
    }
}

/// A payment that is not a whole number of ticket prices buys nothing: the
/// call is refused and the raffle stays as it was.
pub proof fn lemma_partial_payment_is_refused(
    m: RaffleModel,
    sender: Seq<u8>,
    time: u64,
    funds: Seq<Coin>,
)
    requires
        m.raffle is Some,
        payment_of(funds) is Some,
        payment_of(funds)->0 % m.raffle->0.ticket_price != 0,
    ensures
        buy_ticket_step(m, sender, time, funds) is Err,
        state_after(m, buy_ticket_step(m, sender, time, funds)) == m,
{
}

/// With no ticket sold the draw never reads the host's random value, gives
/// the same for every such value, and leaves the raffle without a winner.
pub proof fn lemma_no_tickets_no_winner(
    m: RaffleModel,
    time: u64,
    random: Option<Seq<u8>>,
    other: Option<Seq<u8>>,
)
    requires
        inv(m),
        m.total_tickets == 0,
    ensures
        !reads_seed(m, time),
        select_winner_step(m, time, random) == select_winner_step(m, time, other),
        state_after(m, select_winner_step(m, time, random)).winner is None,
        select_winner_step(m, time, random) is Ok ==> state_after(
            m,
            select_winner_step(m, time, random),
        ).winner_selected,
{
    if m.winner is Some {
        lemma_holding_within_total(m, m.winner->0);
    }
}

/// The tickets, numbered from zero in ledger order, with which a
/// participant wins.
pub open spec fn winning_tickets(s: Seq<Stake>, who: Seq<u8>) -> Set<int> {
    Set::new(
        |t: int| 0 <= t < sum_tickets(s) && s[winning_slot(s, t as nat)].holder == who,
    )
}

/// The tickets with which a participant wins are those on the
/// participant's line: as many as the participant holds, and one after the
/// other.
proof fn lemma_winning_range(s: Seq<Stake>, who: Seq<u8>) -> (range: (int, int))
    requires
        distinct_holders(s),
    ensures
        0 <= range.0 <= range.1 <= sum_tickets(s),
        range.1 - range.0 == tickets_of(s, who),
        forall|t: int| winning_tickets(s, who).contains(t) <==> range.0 <= t < range.1,
{
    let wins = winning_tickets(s, who);
    if holds(s, who) {
        let i = slot_of(s, who);
        lemma_tickets_at(s, i);
        lemma_running_sum_step(s, i);
        lemma_running_sum_monotone(s, i + 1, s.len() as int);
        let low = running_sum(s, i) as int;
        let high = low + s[i].tickets;
        assert forall|t: int| wins.contains(t) <==> low <= t < high by {
            if 0 <= t < sum_tickets(s) {
                lemma_winner_unique(s, t as nat);
                let slot = winning_slot(s, t as nat);
                lemma_wins_at_interval(s, t as nat, i);
                if s[slot].holder == who {
                    lemma_tickets_at(s, slot);
                }
            }
        }
        (low, high)
    } else {
        assert forall|t: int| !wins.contains(t) by {
            if 0 <= t < sum_tickets(s) {
                lemma_winner_unique(s, t as nat);
                let slot = winning_slot(s, t as nat);
                assert(s[slot].holder != who);
            }
        }
        (0, 0)
    }
}

/// Of the tickets that can be drawn, a participant wins with exactly as
/// many as the participant holds: the share of the draws that a participant
/// wins is the participant's share of the tickets.
pub proof fn lemma_chances_match_holdings(s: Seq<Stake>, who: Seq<u8>)
    requires
        distinct_holders(s),
    ensures
        winning_tickets(s, who).finite(),
        winning_tickets(s, who).len() == tickets_of(s, who),
{
    let (low, high) = lemma_winning_range(s, who);
    assert(winning_tickets(s, who) =~= set_int_range(low, high));
    lemma_int_range(low, high);
}

/// The seed numbers of one round, those from `round` times the number of
/// tickets up to the next multiple, with which a participant wins.
pub open spec fn winning_numbers(s: Seq<Stake>, who: Seq<u8>, round: nat) -> Set<int> {
    Set::new(
        |x: int|
            {
                &&& round * sum_tickets(s) <= x < (round + 1) * sum_tickets(s)
                &&& s[winning_slot(s, (x % (sum_tickets(s) as int)) as nat)].holder == who
            },
    )
}

/// In every round of seed numbers a participant wins with exactly as many
/// numbers as the participant holds tickets. Seed numbers that are spread
/// evenly over whole rounds therefore let each participant win in
/// proportion to the tickets held; what is left of the range of seed
/// numbers after the last whole round favours the lines at the front.
pub proof fn lemma_every_round_is_fair(s: Seq<Stake>, who: Seq<u8>, round: nat)
    requires
        distinct_holders(s),
        sum_tickets(s) > 0,
    ensures
        winning_numbers(s, who, round).finite(),
        winning_numbers(s, who, round).len() == tickets_of(s, who),
{
    let total = sum_tickets(s) as int;
    let base = round * total;
    assert((round + 1) * total == base + total) by (nonlinear_arith)
        requires
            base == round * total,
    ;
    let (low, high) = lemma_winning_range(s, who);
    let numbers = winning_numbers(s, who, round);
    assert forall|x: int| numbers.contains(x) <==> base + low <= x < base + high by {
        if base <= x < base + total {
            lemma_fundamental_div_mod_converse(x, total, round as int, x - base);
            assert(x % total == x - base);
            assert(winning_tickets(s, who).contains(x - base) <==> low <= x - base < high);
        }
    }
    assert(numbers =~= set_int_range(base + low, base + high));
    lemma_int_range(base + low, base + high);
}

} // verus!
