use secret_raffle::contract::{
    instantiate, permit_queries, query, query_raffle_info, query_secret, query_tickets,
    try_buy_ticket, try_select_winner, try_set_raffle, try_start_raffle, RaffleState,
};
use secret_raffle::error::RaffleError;
use secret_raffle::identity::Identity;
use secret_raffle::msg::{
    Coin, Credential, Env, InstantiateMsg, MessageInfo, QueryAnswer, QueryMsg, QueryWithPermit,
};

fn account(n: u8) -> Identity {
    Identity::new(vec![0xA0, n, 0x0A])
}

fn pay(sender: &Identity, amount: u128) -> MessageInfo {
    MessageInfo {
        sender: sender.clone(),
        funds: vec![Coin { denom: "uscrt".to_string(), amount }],
    }
}

fn when(time: u64, random: Option<Vec<u8>>) -> Env {
    Env { time, random, balance: 0 }
}

fn created() -> RaffleState {
    instantiate(MessageInfo { sender: account(1), funds: vec![] }, InstantiateMsg { admin: None })
}

fn drawn() -> RaffleState {
    let mut state = created();
    try_set_raffle(&mut state, account(1), "the phrase".to_string(), 250, 5_000).unwrap();
    try_start_raffle(&mut state, account(1)).unwrap();
    try_buy_ticket(&mut state, when(10, None), pay(&account(2), 500)).unwrap();
    try_buy_ticket(&mut state, when(11, None), pay(&account(3), 750)).unwrap();
    // ticket 2 of 5: the first line holds tickets 0 and 1, the second wins
    try_select_winner(&mut state, when(5_000, Some(vec![7, 0, 0, 0, 0, 0, 0, 0]))).unwrap();
    state
}

#[test]
fn info_of_a_new_raffle() {
    assert_eq!(
        query_raffle_info(&created()),
        Ok(QueryAnswer::RaffleInfo {
            started: false,
            ticket_price: None,
            end_time: None,
            total_tickets: 0,
            winner_selected: false,
            prize_claimed: false,
            winner: None,
        })
    );
}

#[test]
fn info_shows_the_terms_before_the_start() {
    let mut state = created();
    try_set_raffle(&mut state, account(1), "s".to_string(), 250, 5_000).unwrap();
    assert_eq!(
        query_raffle_info(&state),
        Ok(QueryAnswer::RaffleInfo {
            started: false,
            ticket_price: Some(250),
            end_time: Some(5_000),
            total_tickets: 0,
            winner_selected: false,
            prize_claimed: false,
            winner: None,
        })
    );
}

#[test]
fn info_shows_the_winner_after_the_draw() {
    assert_eq!(
        query(&drawn(), QueryMsg::RaffleInfo {}),
        Ok(QueryAnswer::RaffleInfo {
            started: true,
            ticket_price: Some(250),
            end_time: Some(5_000),
            total_tickets: 5,
            winner_selected: true,
            prize_claimed: false,
            winner: Some(account(3)),
        })
    );
}

#[test]
fn the_secret_is_for_the_winner_alone() {
    let state = drawn();
    assert_eq!(
        query_secret(&state, &account(3)),
        Ok(QueryAnswer::GetSecret { secret: "the phrase".to_string() })
    );
    assert_eq!(query_secret(&state, &account(2)), Err(RaffleError::NotWinner));
    assert_eq!(query_secret(&state, &account(1)), Err(RaffleError::NotWinner));
}

#[test]
fn the_secret_stays_hidden_until_the_draw() {
    let mut state = created();
    assert_eq!(query_secret(&state, &account(1)), Err(RaffleError::WinnerNotSelected));
    try_set_raffle(&mut state, account(1), "s".to_string(), 250, 5_000).unwrap();
    try_start_raffle(&mut state, account(1)).unwrap();
    try_buy_ticket(&mut state, when(10, None), pay(&account(2), 250)).unwrap();
    assert_eq!(query_secret(&state, &account(2)), Err(RaffleError::WinnerNotSelected));
}

#[test]
fn tickets_default_to_zero() {
    let state = drawn();
    assert_eq!(query_tickets(&state, &account(2)), Ok(QueryAnswer::GetTickets { tickets: 2 }));
    assert_eq!(query_tickets(&state, &account(3)), Ok(QueryAnswer::GetTickets { tickets: 3 }));
    assert_eq!(query_tickets(&state, &account(4)), Ok(QueryAnswer::GetTickets { tickets: 0 }));
    assert_eq!(query_tickets(&created(), &account(1)), Ok(QueryAnswer::GetTickets { tickets: 0 }));
}

#[test]
fn a_verified_permit_asks_for_its_account() {
    let state = drawn();
    assert_eq!(
        permit_queries(
            &state,
            Credential::Verified { account: account(3) },
            QueryWithPermit::GetSecret {}
        ),
        Ok(QueryAnswer::GetSecret { secret: "the phrase".to_string() })
    );
    assert_eq!(
        permit_queries(
            &state,
            Credential::Verified { account: account(2) },
            QueryWithPermit::GetSecret {}
        ),
        Err(RaffleError::NotWinner)
    );
    assert_eq!(
        permit_queries(
            &state,
            Credential::Verified { account: account(2) },
            QueryWithPermit::GetTickets {}
        ),
        Ok(QueryAnswer::GetTickets { tickets: 2 })
    );
}

#[test]
fn query_dispatches_permit_queries() {
    let state = drawn();
    let ask = |permit: Credential, query: QueryWithPermit| QueryMsg::WithPermit { permit, query };
    assert_eq!(
        query(
            &state,
            ask(Credential::Verified { account: account(3) }, QueryWithPermit::GetTickets {})
        ),
        Ok(QueryAnswer::GetTickets { tickets: 3 })
    );
    assert_eq!(
        query(&state, ask(Credential::Rejected, QueryWithPermit::GetTickets {})),
        Err(RaffleError::InvalidCredential)
    );
    assert_eq!(
        query(&state, ask(Credential::Rejected, QueryWithPermit::GetSecret {})),
        Err(RaffleError::InvalidCredential)
    );
}

#[test]
fn the_draw_reads_the_seed_only_when_it_is_due_and_tickets_were_sold() {
    let mut state = created();
    assert!(!state.draw_reads_seed(9_999));
    try_set_raffle(&mut state, account(1), "s".to_string(), 250, 5_000).unwrap();
    try_start_raffle(&mut state, account(1)).unwrap();
    assert!(!state.draw_reads_seed(5_000));
    try_buy_ticket(&mut state, when(10, None), pay(&account(2), 250)).unwrap();
    assert!(!state.draw_reads_seed(4_999));
    assert!(state.draw_reads_seed(5_000));
    try_select_winner(&mut state, when(5_000, Some(vec![0; 8]))).unwrap();
    assert!(!state.draw_reads_seed(5_000));
}
