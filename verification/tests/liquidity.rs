use alkane_lottery::error::ContractError;
use alkane_lottery::id::{AlkaneId, AlkaneTransfer, CallResponse};
use alkane_lottery::lottery::LotteryContract;

const TICKET_PRICE: u128 = 10_000_000_000u128;

fn lottery_contract() -> AlkaneId {
    AlkaneId { block: 4, tx: 1 }
}

fn lottery_token() -> AlkaneId {
    AlkaneId { block: 4, tx: 2 }
}

fn collector_factory() -> AlkaneId {
    AlkaneId { block: 4, tx: 3 }
}

fn fresh_lottery() -> LotteryContract {
    LotteryContract::initialize(lottery_token(), TICKET_PRICE, collector_factory(), 1, 840_001)
}

fn paid(response: &CallResponse, id: AlkaneId) -> u128 {
    response.alkanes.iter().filter(|t| t.id == id).map(|t| t.value).sum()
}

fn deposit(c: &mut LotteryContract, amount: u128) -> Result<u128, ContractError> {
    let incoming = vec![AlkaneTransfer { id: lottery_token(), value: amount }];
    let response = c.lp_deposit(lottery_contract(), &incoming, amount)?;
    Ok(paid(&response, lottery_contract()))
}

fn withdraw(c: &mut LotteryContract, shares: u128) -> Result<u128, ContractError> {
    let incoming = vec![AlkaneTransfer { id: lottery_contract(), value: shares }];
    let response = c.lp_withdraw(lottery_contract(), &incoming, shares)?;
    Ok(paid(&response, lottery_token()))
}

#[test]
fn test_lp_single_deposit() {
    let mut c = fresh_lottery();
    let deposit_amount = TICKET_PRICE * 10;
    let shares_received = deposit(&mut c, deposit_amount).unwrap();
    assert_eq!(shares_received, deposit_amount);
    assert_eq!(c.lp_pool_total, deposit_amount);
    assert_eq!(c.total_supply, deposit_amount);
}

#[test]
fn test_lp_multiple_deposits() {
    let mut c = fresh_lottery();
    let deposit_amount_1 = TICKET_PRICE * 10;
    let shares_1 = deposit(&mut c, deposit_amount_1).unwrap();
    assert_eq!(shares_1, deposit_amount_1);

    let deposit_amount_2 = TICKET_PRICE * 20;
    let shares_2 = deposit(&mut c, deposit_amount_2).unwrap();
    let expected_shares_2 = (deposit_amount_2 * shares_1) / deposit_amount_1;
    assert_eq!(shares_2, expected_shares_2);

    let deposit_amount_3 = TICKET_PRICE * 5;
    let shares_3 = deposit(&mut c, deposit_amount_3).unwrap();
    let total_shares_before_3 = shares_1 + shares_2;
    let pool_total_before_3 = deposit_amount_1 + deposit_amount_2;
    let expected_shares_3 = (deposit_amount_3 * total_shares_before_3) / pool_total_before_3;
    assert_eq!(shares_3, expected_shares_3);
}

#[test]
fn test_lp_deposit_and_full_withdraw() {
    let mut c = fresh_lottery();
    let deposit_amount = TICKET_PRICE * 10;
    let shares_received = deposit(&mut c, deposit_amount).unwrap();
    let tokens_received = withdraw(&mut c, shares_received).unwrap();
    let expected_tokens = (deposit_amount / TICKET_PRICE) * TICKET_PRICE;
    assert_eq!(tokens_received, expected_tokens);
    assert_eq!(c.lp_pool_total, 0);
    assert_eq!(c.total_supply, 0);
}

#[test]
fn test_multiple_lps_deposit_and_withdraw() {
    let mut c = fresh_lottery();
    let deposit_amount_1 = TICKET_PRICE * 10;
    let shares_1 = deposit(&mut c, deposit_amount_1).unwrap();
    let deposit_amount_2 = TICKET_PRICE * 20;
    let shares_2 = deposit(&mut c, deposit_amount_2).unwrap();
    let total_shares = shares_1 + shares_2;
    let total_pool = deposit_amount_1 + deposit_amount_2;

    let tokens_1 = withdraw(&mut c, shares_1).unwrap();
    let expected_tokens_1 = (shares_1 * total_pool) / total_shares;
    assert_eq!(tokens_1, (expected_tokens_1 / TICKET_PRICE) * TICKET_PRICE);

    let remaining_pool = total_pool - tokens_1;
    let remaining_shares = total_shares - shares_1;
    let tokens_2 = withdraw(&mut c, shares_2).unwrap();
    let expected_tokens_2 = (shares_2 * remaining_pool) / remaining_shares;
    assert_eq!(tokens_2, (expected_tokens_2 / TICKET_PRICE) * TICKET_PRICE);
    assert!(tokens_1 + tokens_2 <= total_pool);
}

#[test]
fn test_lp_partial_withdraw() {
    let mut c = fresh_lottery();
    let deposit_amount = TICKET_PRICE * 10;
    let shares_received = deposit(&mut c, deposit_amount).unwrap();
    let shares_to_withdraw = shares_received / 2;
    let tokens_1 = withdraw(&mut c, shares_to_withdraw).unwrap();
    assert_eq!(tokens_1, (deposit_amount / 2 / TICKET_PRICE) * TICKET_PRICE);
    let remaining_shares = shares_received - shares_to_withdraw;
    let tokens_2 = withdraw(&mut c, remaining_shares).unwrap();
    assert!(tokens_1 + tokens_2 <= deposit_amount);
    assert_eq!(tokens_1 + tokens_2, deposit_amount);
}

#[test]
fn test_lp_deposit_below_ticket_price_fails() {
    let mut c = fresh_lottery();
    let deposit_amount = TICKET_PRICE / 2;
    assert_eq!(deposit(&mut c, deposit_amount), Err(ContractError::DepositBelowTicketPrice));
    assert_eq!(c.lp_pool_total, 0);
}

#[test]
fn test_lp_deposit_exceeds_cap_fails() {
    let mut c = fresh_lottery();
    let deposit_amount = TICKET_PRICE * 100 * 1000 + TICKET_PRICE;
    assert_eq!(deposit(&mut c, deposit_amount), Err(ContractError::DepositExceedsCap));
    assert_eq!(c.lp_pool_total, 0);
}

#[test]
fn lp_deposit_refunds_the_rest_and_other_alkanes() {
    let mut c = fresh_lottery();
    let other = AlkaneId { block: 2, tx: 9 };
    let incoming = vec![
        AlkaneTransfer { id: lottery_token(), value: TICKET_PRICE * 3 + 7 },
        AlkaneTransfer { id: other, value: 5 },
    ];
    let response = c.lp_deposit(lottery_contract(), &incoming, TICKET_PRICE * 3 + 7).unwrap();
    assert_eq!(
        response.alkanes,
        vec![
            AlkaneTransfer { id: other, value: 5 },
            AlkaneTransfer { id: lottery_token(), value: 7 },
            AlkaneTransfer { id: lottery_contract(), value: TICKET_PRICE * 3 },
        ]
    );
    assert!(response.data.is_empty());
}

#[test]
fn lp_deposit_refusals() {
    let mut c = fresh_lottery();
    let none: Vec<AlkaneTransfer> = vec![];
    assert_eq!(
        c.lp_deposit(lottery_contract(), &none, TICKET_PRICE).err(),
        Some(ContractError::InvalidDepositAmount)
    );
    let more = vec![AlkaneTransfer { id: lottery_token(), value: TICKET_PRICE * 2 }];
    assert_eq!(
        c.lp_deposit(lottery_contract(), &more, TICKET_PRICE).err(),
        Some(ContractError::InvalidDepositAmount)
    );
    let less = vec![AlkaneTransfer { id: lottery_token(), value: TICKET_PRICE }];
    assert_eq!(
        c.lp_deposit(lottery_contract(), &less, TICKET_PRICE * 2).err(),
        Some(ContractError::InsufficientInput { desired: TICKET_PRICE * 2, received: TICKET_PRICE })
    );
    c.jackpot_lock = 1;
    assert_eq!(
        c.lp_deposit(lottery_contract(), &less, TICKET_PRICE).err(),
        Some(ContractError::JackpotRunning)
    );
    let mut bare = fresh_lottery();
    bare.token = None;
    assert_eq!(
        bare.lp_deposit(lottery_contract(), &less, TICKET_PRICE).err(),
        Some(ContractError::StorageDecode)
    );
}

#[test]
fn lp_deposit_share_overflow_is_refused() {
    let mut c = fresh_lottery();
    c.lp_pool_cap = u128::MAX;
    c.lp_pool_total = 1;
    c.total_supply = u128::MAX;
    let incoming = vec![AlkaneTransfer { id: lottery_token(), value: TICKET_PRICE * 2 }];
    assert_eq!(
        c.lp_deposit(lottery_contract(), &incoming, TICKET_PRICE * 2).err(),
        Some(ContractError::ShareOverflow)
    );
}

#[test]
fn lp_withdraw_refusals() {
    let mut c = fresh_lottery();
    let shares = deposit(&mut c, TICKET_PRICE * 10).unwrap();
    let none: Vec<AlkaneTransfer> = vec![];
    assert_eq!(
        c.lp_withdraw(lottery_contract(), &none, shares).err(),
        Some(ContractError::InvalidWithdrawAmount)
    );
    let some = vec![AlkaneTransfer { id: lottery_contract(), value: shares }];
    assert_eq!(
        c.lp_withdraw(lottery_contract(), &some, shares + 1).err(),
        Some(ContractError::InsufficientShares)
    );
    let half = vec![AlkaneTransfer { id: lottery_contract(), value: shares / 2 }];
    assert_eq!(
        c.lp_withdraw(lottery_contract(), &half, shares).err(),
        Some(ContractError::InsufficientInput { desired: shares, received: shares / 2 })
    );
    assert_eq!(c.lp_pool_total, TICKET_PRICE * 10);
}

#[test]
fn lottery_assets_before_transfer_subtracts_incoming_token() {
    let c = fresh_lottery();
    let incoming = vec![
        AlkaneTransfer { id: lottery_token(), value: 30 },
        AlkaneTransfer { id: lottery_contract(), value: 1000 },
        AlkaneTransfer { id: lottery_token(), value: 12 },
    ];
    assert_eq!(c.lottery_assets_before_transfer(100, &incoming), Ok(58));
}

#[test]
fn deposit_then_withdraw_returns_at_most_the_deposit() {
    let mut c = fresh_lottery();
    c.lp_pool_total = TICKET_PRICE * 30;
    c.total_supply = TICKET_PRICE * 27;
    let paid_in = TICKET_PRICE * 7;
    let shares = deposit(&mut c, paid_in).unwrap();
    assert_eq!(shares, paid_in * 27 / 30);
    let back = withdraw(&mut c, shares).unwrap();
    assert!(back <= paid_in);
    assert_eq!(back, ((shares * (TICKET_PRICE * 37)) / (TICKET_PRICE * 27 + shares)) / TICKET_PRICE * TICKET_PRICE);
}

#[test]
fn deposits_and_withdrawals_do_not_dilute_shares() {
    let mut c = fresh_lottery();
    c.lp_pool_total = 1_000_003;
    c.total_supply = 999_999;
    c.ticket_price = 7;
    let (pool, supply) = (c.lp_pool_total, c.total_supply);
    let shares = deposit(&mut c, 70).unwrap();
    assert_eq!(shares, 70 * 999_999 / 1_000_003);
    assert!(c.lp_pool_total * supply >= pool * c.total_supply);
    let (pool, supply) = (c.lp_pool_total, c.total_supply);
    let out = withdraw(&mut c, 5_000).unwrap();
    assert_eq!(out, (5_000 * pool / supply) / 7 * 7);
    assert!(c.lp_pool_total * supply >= pool * c.total_supply);
}

#[test]
fn a_run_of_withdrawals_pays_out_exactly_what_leaves_the_pool() {
    let mut c = fresh_lottery();
    deposit(&mut c, TICKET_PRICE * 10).unwrap();
    deposit(&mut c, TICKET_PRICE * 7).unwrap();
    // Fees raise the pool above the share supply, so shares are worth more than a token.
    c.lp_pool_total += TICKET_PRICE * 3;
    let start_pool = c.lp_pool_total;
    let start_supply = c.total_supply;
    let mut paid_out: u128 = 0;
    for shares in [TICKET_PRICE * 4, TICKET_PRICE * 5 + 123, TICKET_PRICE] {
        let (pool, supply) = (c.lp_pool_total, c.total_supply);
        let out = withdraw(&mut c, shares).unwrap();
        assert!(out * supply <= shares * pool);
        assert!(c.lp_pool_total * supply >= pool * c.total_supply);
        paid_out += out;
    }
    assert!(paid_out <= start_pool);
    assert_eq!(c.lp_pool_total, start_pool - paid_out);
    assert!(c.lp_pool_total * start_supply >= start_pool * c.total_supply);
}
