use secret_raffle::contract::{
    instantiate, permit_queries, query_secret, try_buy_ticket, try_claim_prize,
    try_select_winner, try_set_raffle, try_start_raffle, RaffleState, Snapshot,
};
use secret_raffle::error::{ErrorKind, RaffleError};
use secret_raffle::identity::Identity;
use secret_raffle::ledger::TicketEntry;
use secret_raffle::msg::{
    Coin, Credential, Env, InstantiateMsg, MessageInfo, QueryWithPermit, Response,
};
use secret_raffle::state::Raffle;

fn person(n: u8) -> Identity {
    Identity::new(vec![0x10, n])
}

fn paid(amount: u128) -> Vec<Coin> {
    vec![Coin { denom: "uscrt".to_string(), amount }]
}

fn at(time: u64) -> Env {
    Env { time, random: None, balance: 0 }
}

fn from(sender: &Identity, funds: Vec<Coin>) -> MessageInfo {
    MessageInfo { sender: sender.clone(), funds }
}

fn fresh(admin: &Identity) -> RaffleState {
    instantiate(from(admin, vec![]), InstantiateMsg { admin: None })
}

fn open(admin: &Identity, price: u128, end_time: u64) -> RaffleState {
    let mut state = fresh(admin);
    try_set_raffle(&mut state, admin.clone(), "phrase".to_string(), price, end_time).unwrap();
    try_start_raffle(&mut state, admin.clone()).unwrap();
    state
}

#[test]
fn unauthorized_when_a_stranger_configures() {
    let mut state = fresh(&person(1));
    assert_eq!(
        try_set_raffle(&mut state, person(2), "p".to_string(), 1, 1),
        Err(RaffleError::Unauthorized)
    );
}

#[test]
fn already_started_when_started_twice() {
    let mut state = open(&person(1), 10, 100);
    assert_eq!(try_start_raffle(&mut state, person(1)), Err(RaffleError::AlreadyStarted));
}

#[test]
fn not_configured_when_started_too_early() {
    let mut state = fresh(&person(1));
    assert_eq!(try_start_raffle(&mut state, person(1)), Err(RaffleError::NotConfigured));
    assert!(!state.started());
}

#[test]
fn not_configured_when_drawn_too_early() {
    let mut state = fresh(&person(1));
    assert_eq!(try_select_winner(&mut state, at(5)), Err(RaffleError::NotConfigured));
    assert!(!state.winner_selected());
}

#[test]
fn zero_price_is_refused_at_configuration() {
    let mut state = fresh(&person(1));
    assert_eq!(
        try_set_raffle(&mut state, person(1), "p".to_string(), 0, 100),
        Err(RaffleError::ZeroPrice)
    );
    assert_eq!(state.raffle(), &None);
    assert_eq!(try_set_raffle(&mut state, person(1), "p".to_string(), 1, 100), Ok(Response::Done));
}

#[test]
fn configuration_can_be_replaced_before_the_start() {
    let mut state = fresh(&person(1));
    try_set_raffle(&mut state, person(1), "first".to_string(), 5, 100).unwrap();
    try_set_raffle(&mut state, person(1), "second".to_string(), 7, 200).unwrap();
    assert_eq!(
        state.raffle(),
        &Some(Raffle { end_time: 200, ticket_price: 7, secret: "second".to_string() })
    );
}

#[test]
fn not_started_when_sales_are_closed() {
    let mut state = fresh(&person(1));
    assert_eq!(
        try_buy_ticket(&mut state, at(1), from(&person(2), paid(10))),
        Err(RaffleError::NotStarted)
    );
}

#[test]
fn raffle_ended_at_the_end_time() {
    let mut state = open(&person(1), 10, 100);
    assert_eq!(
        try_buy_ticket(&mut state, at(100), from(&person(2), paid(10))),
        Err(RaffleError::RaffleEnded)
    );
}

#[test]
fn admin_cannot_buy_is_reported_before_the_payment_is_read() {
    let mut state = open(&person(1), 10, 100);
    assert_eq!(
        try_buy_ticket(&mut state, at(1), from(&person(1), vec![])),
        Err(RaffleError::AdminCannotBuy)
    );
}

#[test]
fn no_funds_sent_without_a_coin_in_the_currency() {
    let mut state = open(&person(1), 10, 100);
    assert_eq!(
        try_buy_ticket(&mut state, at(1), from(&person(2), vec![])),
        Err(RaffleError::NoFundsSent)
    );
    let other = vec![
        Coin { denom: "uatom".to_string(), amount: 10 },
        Coin { denom: "USCRT".to_string(), amount: 10 },
        Coin { denom: "uscrt ".to_string(), amount: 10 },
    ];
    assert_eq!(
        try_buy_ticket(&mut state, at(1), from(&person(2), other)),
        Err(RaffleError::NoFundsSent)
    );
    assert_eq!(state.total_tickets(), 0);
}

#[test]
fn the_first_coin_in_the_currency_is_the_payment() {
    let mut state = open(&person(1), 10, 100);
    let funds = vec![
        Coin { denom: "uatom".to_string(), amount: 1000 },
        Coin { denom: "uscrt".to_string(), amount: 30 },
        Coin { denom: "uscrt".to_string(), amount: 70 },
    ];
    assert_eq!(try_buy_ticket(&mut state, at(1), from(&person(2), funds)), Ok(Response::Done));
    assert_eq!(state.total_tickets(), 3);
}

#[test]
fn not_a_multiple_of_price_for_a_broken_amount() {
    let mut state = open(&person(1), 10, 100);
    assert_eq!(
        try_buy_ticket(&mut state, at(1), from(&person(2), paid(15))),
        Err(RaffleError::NotAMultipleOfPrice)
    );
}

#[test]
fn overflow_when_one_purchase_exceeds_the_counter() {
    let mut state = open(&person(1), 1, 100);
    let too_many: u128 = u64::MAX as u128 + 1;
    assert_eq!(
        try_buy_ticket(&mut state, at(1), from(&person(2), paid(too_many))),
        Err(RaffleError::Overflow)
    );
    assert_eq!(state.total_tickets(), 0);
    assert_eq!(state.tickets().len(), 0);
}

#[test]
fn overflow_when_the_total_would_exceed_the_counter() {
    let mut state = open(&person(1), 1, 100);
    let most: u128 = u64::MAX as u128;
    assert_eq!(
        try_buy_ticket(&mut state, at(1), from(&person(2), paid(most))),
        Ok(Response::Done)
    );
    assert_eq!(state.total_tickets(), u64::MAX);
    let before = state.snapshot();
    assert_eq!(
        try_buy_ticket(&mut state, at(1), from(&person(3), paid(1))),
        Err(RaffleError::Overflow)
    );
    assert_eq!(
        try_buy_ticket(&mut state, at(1), from(&person(2), paid(1))),
        Err(RaffleError::Overflow)
    );
    assert_eq!(state.snapshot(), before);
    assert_eq!(
        try_buy_ticket(&mut state, at(1), from(&person(3), paid(0))),
        Ok(Response::Done)
    );
}

#[test]
fn not_yet_ended_before_the_end_time() {
    let mut state = open(&person(1), 10, 100);
    assert_eq!(try_select_winner(&mut state, at(99)), Err(RaffleError::NotYetEnded));
    assert_eq!(try_select_winner(&mut state, at(100)), Ok(Response::NoTickets));
}

#[test]
fn already_selected_when_drawn_twice() {
    let mut state = open(&person(1), 10, 100);
    try_select_winner(&mut state, at(100)).unwrap();
    assert_eq!(try_select_winner(&mut state, at(101)), Err(RaffleError::AlreadySelected));
}

#[test]
fn randomness_unavailable_when_tickets_were_sold() {
    let mut state = open(&person(1), 10, 100);
    try_buy_ticket(&mut state, at(1), from(&person(2), paid(10))).unwrap();
    let before = state.snapshot();
    assert_eq!(try_select_winner(&mut state, at(100)), Err(RaffleError::RandomnessUnavailable));
    assert_eq!(state.snapshot(), before);
    let draw = Env { time: 100, random: Some(vec![0; 8]), balance: 0 };
    assert_eq!(try_select_winner(&mut state, draw), Ok(Response::Done));
}

#[test]
fn winner_not_selected_before_the_draw() {
    let mut state = open(&person(1), 10, 100);
    let held = Env { time: 1, random: None, balance: 10 };
    assert_eq!(
        try_claim_prize(&mut state, held, from(&person(2), vec![])),
        Err(RaffleError::WinnerNotSelected)
    );
    assert_eq!(query_secret(&state, &person(2)), Err(RaffleError::WinnerNotSelected));
}

#[test]
fn no_winner_after_a_draw_without_tickets() {
    let mut state = open(&person(1), 10, 100);
    try_select_winner(&mut state, at(100)).unwrap();
    let held = Env { time: 101, random: None, balance: 10 };
    assert_eq!(
        try_claim_prize(&mut state, held, from(&person(2), vec![])),
        Err(RaffleError::NoWinner)
    );
    assert_eq!(query_secret(&state, &person(2)), Err(RaffleError::NoWinner));
}

#[test]
fn not_winner_for_everyone_else() {
    let mut state = open(&person(1), 10, 100);
    try_buy_ticket(&mut state, at(1), from(&person(2), paid(10))).unwrap();
    let draw = Env { time: 100, random: Some(vec![9; 8]), balance: 0 };
    try_select_winner(&mut state, draw).unwrap();
    for other in [person(1), person(3)] {
        let held = Env { time: 101, random: None, balance: 10 };
        assert_eq!(
            try_claim_prize(&mut state, held, from(&other, vec![])),
            Err(RaffleError::NotWinner)
        );
        assert_eq!(query_secret(&state, &other), Err(RaffleError::NotWinner));
    }
}

#[test]
fn nothing_to_claim_from_an_empty_raffle() {
    let mut state = open(&person(1), 10, 100);
    try_buy_ticket(&mut state, at(1), from(&person(2), paid(10))).unwrap();
    let draw = Env { time: 100, random: Some(vec![9; 8]), balance: 0 };
    try_select_winner(&mut state, draw).unwrap();
    let held = Env { time: 101, random: None, balance: 0 };
    assert_eq!(
        try_claim_prize(&mut state, held, from(&person(2), vec![])),
        Err(RaffleError::NothingToClaim)
    );
    assert!(!state.prize_claimed());
    let held = Env { time: 102, random: None, balance: 1 };
    assert_eq!(
        try_claim_prize(&mut state, held, from(&person(2), vec![])),
        Ok(Response::PayWinner { recipient: person(2), amount: 1 })
    );
}

#[test]
fn invalid_credential_for_a_rejected_permit() {
    let state = open(&person(1), 10, 100);
    for query in [QueryWithPermit::GetSecret {}, QueryWithPermit::GetTickets {}] {
        assert_eq!(
            permit_queries(&state, Credential::Rejected, query),
            Err(RaffleError::InvalidCredential)
        );
    }
}

#[test]
fn every_error_has_its_kind() {
    let kinds = [
        (RaffleError::Unauthorized, ErrorKind::Unauthorized),
        (RaffleError::NotWinner, ErrorKind::Unauthorized),
        (RaffleError::AlreadyStarted, ErrorKind::InvalidState),
        (RaffleError::NotConfigured, ErrorKind::InvalidState),
        (RaffleError::NotStarted, ErrorKind::InvalidState),
        (RaffleError::RaffleEnded, ErrorKind::InvalidState),
        (RaffleError::NotYetEnded, ErrorKind::InvalidState),
        (RaffleError::AlreadySelected, ErrorKind::InvalidState),
        (RaffleError::WinnerNotSelected, ErrorKind::InvalidState),
        (RaffleError::AlreadyClaimed, ErrorKind::InvalidState),
        (RaffleError::NoWinner, ErrorKind::InvalidState),
        (RaffleError::ZeroPrice, ErrorKind::InvalidInput),
        (RaffleError::AdminCannotBuy, ErrorKind::InvalidInput),
        (RaffleError::NoFundsSent, ErrorKind::InvalidInput),
        (RaffleError::NotAMultipleOfPrice, ErrorKind::InvalidInput),
        (RaffleError::Overflow, ErrorKind::Overflow),
        (RaffleError::RandomnessUnavailable, ErrorKind::ResourceUnavailable),
        (RaffleError::NothingToClaim, ErrorKind::ResourceUnavailable),
        (RaffleError::InvalidCredential, ErrorKind::InvalidCredential),
    ];
    for (error, kind) in kinds {
        assert_eq!(error.kind(), kind);
    }
}

#[test]
fn every_error_has_its_text() {
    assert_eq!(RaffleError::AlreadyStarted.message(), "Raffle already started");
    assert_eq!(RaffleError::NotConfigured.message(), "Raffle not yet configured");
    assert_eq!(RaffleError::NotStarted.message(), "Raffle not started");
    assert_eq!(RaffleError::RaffleEnded.message(), "Raffle has ended");
    assert_eq!(RaffleError::AdminCannotBuy.message(), "Admin cannot buy tickets");
    assert_eq!(RaffleError::NoFundsSent.message(), "No uscrt sent");
    assert_eq!(
        RaffleError::NotAMultipleOfPrice.message(),
        "Amount must be a multiple of ticket price"
    );
    assert_eq!(RaffleError::NotYetEnded.message(), "Raffle not yet ended");
    assert_eq!(RaffleError::AlreadySelected.message(), "Winner already selected");
    assert_eq!(RaffleError::RandomnessUnavailable.message(), "Randomness unavailable");
    assert_eq!(RaffleError::WinnerNotSelected.message(), "Winner not selected");
    assert_eq!(RaffleError::AlreadyClaimed.message(), "Prize already claimed");
    assert_eq!(RaffleError::NoWinner.message(), "No winner set");
    assert_eq!(RaffleError::NothingToClaim.message(), "No prize available");
    for error in [
        RaffleError::Unauthorized,
        RaffleError::ZeroPrice,
        RaffleError::Overflow,
        RaffleError::NotWinner,
        RaffleError::InvalidCredential,
    ] {
        assert!(!error.message().is_empty());
    }
}

fn stored(entries: Vec<TicketEntry>, total_tickets: u64) -> Snapshot {
    Snapshot {
        admin: person(1),
        raffle: Some(Raffle { end_time: 100, ticket_price: 10, secret: "p".to_string() }),
        started: true,
        winner_selected: false,
        prize_claimed: false,
        entries,
        total_tickets,
        winner: None,
    }
}

fn line(n: u8, tickets: u64) -> TicketEntry {
    TicketEntry { holder: person(n), tickets }
}

#[test]
fn a_sound_snapshot_is_restored_as_it_is() {
    let snapshot = stored(vec![line(2, 3), line(3, 1)], 4);
    let state = RaffleState::restore(snapshot).unwrap();
    assert_eq!(state.snapshot(), stored(vec![line(2, 3), line(3, 1)], 4));
    assert_eq!(state.total_tickets(), 4);
    assert_eq!(state.tickets().get(&person(2)), 3);
}

#[test]
fn a_state_survives_being_stored() {
    let mut state = open(&person(1), 10, 100);
    try_buy_ticket(&mut state, at(1), from(&person(2), paid(30))).unwrap();
    try_buy_ticket(&mut state, at(1), from(&person(3), paid(10))).unwrap();
    let draw = Env { time: 100, random: Some(vec![3, 0, 0, 0, 0, 0, 0, 0]), balance: 0 };
    try_select_winner(&mut state, draw).unwrap();
    let restored = RaffleState::restore(state.snapshot()).unwrap();
    assert_eq!(restored.snapshot(), state.snapshot());
    assert_eq!(restored.winner(), &Some(person(3)));
}

#[test]
fn an_unsound_snapshot_is_not_restored() {
    assert!(RaffleState::restore(stored(vec![line(2, 3), line(3, 1)], 5)).is_none());
    assert!(RaffleState::restore(stored(vec![line(2, 3), line(2, 1)], 4)).is_none());
    assert!(RaffleState::restore(stored(vec![line(2, u64::MAX), line(3, 1)], 0)).is_none());

    let mut zero_price = stored(vec![], 0);
    zero_price.raffle = Some(Raffle { end_time: 1, ticket_price: 0, secret: String::new() });
    assert!(RaffleState::restore(zero_price).is_none());

    let mut started_without_terms = stored(vec![], 0);
    started_without_terms.raffle = None;
    assert!(RaffleState::restore(started_without_terms).is_none());

    let mut sold_before_start = stored(vec![line(2, 1)], 1);
    sold_before_start.started = false;
    assert!(RaffleState::restore(sold_before_start).is_none());

    let mut winner_before_draw = stored(vec![line(2, 1)], 1);
    winner_before_draw.winner = Some(person(2));
    assert!(RaffleState::restore(winner_before_draw).is_none());

    let mut claimed_without_winner = stored(vec![line(2, 1)], 1);
    claimed_without_winner.winner_selected = true;
    claimed_without_winner.prize_claimed = true;
    assert!(RaffleState::restore(claimed_without_winner).is_none());

    let mut winner_without_tickets = stored(vec![line(2, 1), line(3, 0)], 1);
    winner_without_tickets.winner_selected = true;
    winner_without_tickets.winner = Some(person(3));
    assert!(RaffleState::restore(winner_without_tickets).is_none());

    let mut sound = stored(vec![line(2, 1), line(3, 0)], 1);
    sound.winner_selected = true;
    sound.winner = Some(person(2));
    sound.prize_claimed = true;
    assert!(RaffleState::restore(sound).is_some());
}
