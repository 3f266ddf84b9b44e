use alkane_lottery::entropy::BlockHeader;
use alkane_lottery::error::ContractError;
use alkane_lottery::id::{AlkaneId, AlkaneTransfer, CallResponse};
use alkane_lottery::lottery::tickets::CollectorMint;
use alkane_lottery::lottery::LotteryContract;

const TICKET_PRICE: u128 = 10_000_000_000u128;
const GENESIS_RANDOM: u128 = 0x4ff763ae46a2a6c172b3f1b60a8ce26f;

fn lottery_contract() -> AlkaneId {
    AlkaneId { block: 4, tx: 1 }
}

fn lottery_token() -> AlkaneId {
    AlkaneId { block: 4, tx: 2 }
}

fn collector_factory() -> AlkaneId {
    AlkaneId { block: 4, tx: 3 }
}

fn genesis_header() -> BlockHeader {
    BlockHeader {
        version: 1,
        prev_blockhash: [0u8; 32],
        merkle_root: [
            0x3b, 0xa3, 0xed, 0xfd, 0x7a, 0x7b, 0x12, 0xb2, 0x7a, 0xc7, 0x2c, 0x3e, 0x67, 0x76,
            0x8f, 0x61, 0x7f, 0xc8, 0x1b, 0xc3, 0x88, 0x8a, 0x51, 0x32, 0x3a, 0x9f, 0xb8, 0xaa,
            0x4b, 0x1e, 0x5e, 0x4a,
        ],
        time: 1231006505,
        bits: 0x1d00ffff,
        nonce: 2083236893,
    }
}

fn lottery(enable_purchasing: u128) -> LotteryContract {
    LotteryContract::initialize(
        lottery_token(),
        TICKET_PRICE,
        collector_factory(),
        enable_purchasing,
        840_001,
    )
}

fn paid(response: &CallResponse, id: AlkaneId) -> u128 {
    response.alkanes.iter().filter(|t| t.id == id).map(|t| t.value).sum()
}

fn tokens(amount: u128) -> Vec<AlkaneTransfer> {
    vec![AlkaneTransfer { id: lottery_token(), value: amount }]
}

fn deposit(c: &mut LotteryContract, amount: u128) -> u128 {
    let response = c.lp_deposit(lottery_contract(), &tokens(amount), amount).unwrap();
    paid(&response, lottery_contract())
}

fn withdraw(c: &mut LotteryContract, shares: u128) -> u128 {
    let incoming = vec![AlkaneTransfer { id: lottery_contract(), value: shares }];
    let response = c.lp_withdraw(lottery_contract(), &incoming, shares).unwrap();
    paid(&response, lottery_token())
}

fn mint_and_buy(c: &mut LotteryContract, amount: u128, collector: AlkaneId) -> CallResponse {
    let incoming = tokens(amount);
    c.begin_mint_and_buy(&incoming).unwrap();
    let minted = CallResponse { alkanes: vec![AlkaneTransfer { id: collector, value: 1 }], data: vec![] };
    c.finish_mint_and_buy(&incoming, minted).unwrap()
}

#[test]
fn block_hash_of_genesis_draws_known_number() {
    let c = lottery(1);
    assert_eq!(c.block_hash_to_u128(&genesis_header()), GENESIS_RANDOM);
    assert_eq!(c.get_winning_ticket(1_007_450, &genesis_header()), GENESIS_RANDOM % 1_007_450 + 1);
    assert_eq!(c.get_winning_ticket(1, &genesis_header()), 1);
}

#[test]
fn initialize_sets_defaults() {
    let c = lottery(1);
    assert_eq!(c.fee_bps, 1500);
    assert_eq!(c.protocol_fee_bps, 10);
    assert_eq!(c.round_duration_in_blocks, 144);
    assert_eq!(c.lp_limit, 100);
    assert_eq!(c.user_limit, 1500);
    assert_eq!(c.min_lp_deposit, TICKET_PRICE * 100);
    assert_eq!(c.lp_pool_cap, TICKET_PRICE * 100 * 1000);
    assert_eq!(c.last_jackpot_end_block, 840_001);
    assert_eq!(c.allow_purchasing, 1);
}

#[test]
fn test_purchase_tickets_when_disabled_fails() {
    let mut c = lottery(0);
    let incoming = tokens(TICKET_PRICE * 5);
    assert_eq!(c.begin_mint_and_buy(&incoming), Err(ContractError::PurchasingNotAllowed));
    assert_eq!(
        c.purchase_tickets(AlkaneId { block: 2, tx: 1 }, &incoming).err(),
        Some(ContractError::PurchasingNotAllowed)
    );
    assert_eq!(c.next_ticket_collector_id, 0);
}

#[test]
fn test_mint_and_buy_success() {
    let mut c = lottery(1);
    let incoming = tokens(TICKET_PRICE * 5);
    let mint = c.begin_mint_and_buy(&incoming).unwrap();
    assert_eq!(mint, CollectorMint { target: AlkaneId { block: 6, tx: 3 }, ticket_id: 0 });
    assert_eq!(c.next_ticket_collector_id, 1);
    let collector = AlkaneId { block: 2, tx: 7 };
    let minted = CallResponse { alkanes: vec![AlkaneTransfer { id: collector, value: 1 }], data: vec![] };
    let response = c.finish_mint_and_buy(&incoming, minted).unwrap();
    assert_eq!(paid(&response, collector), 1);
    assert_eq!(paid(&response, lottery_token()), 0);
    assert_eq!(c.round_collectors, vec![collector]);
    assert_eq!(c.tickets_for_collector.get(collector), 5 * 8500);
    assert_eq!(c.ticket_count_total_bps, 5 * 8500);
    assert_eq!(c.all_fees_total, TICKET_PRICE * 5 * 1500 / 10000);
    assert_eq!(c.protocol_fee_claimable, TICKET_PRICE * 5 * 10 / 10000);
    assert_eq!(c.lp_fees_total, TICKET_PRICE * 5 * 1500 / 10000 - TICKET_PRICE * 5 * 10 / 10000);
    assert_eq!(c.user_pool_total, TICKET_PRICE * 5 - TICKET_PRICE * 5 * 1500 / 10000);
}

#[test]
fn mint_and_buy_refunds_and_fails_without_collector() {
    let mut c = lottery(1);
    let other = AlkaneId { block: 9, tx: 9 };
    let incoming = vec![
        AlkaneTransfer { id: lottery_token(), value: TICKET_PRICE * 2 + 3 },
        AlkaneTransfer { id: other, value: 4 },
    ];
    c.begin_mint_and_buy(&incoming).unwrap();
    let empty = CallResponse { alkanes: vec![], data: vec![] };
    assert_eq!(c.finish_mint_and_buy(&incoming, empty).err(), Some(ContractError::NoCollectorMinted));
    let collector = AlkaneId { block: 2, tx: 8 };
    let minted = CallResponse { alkanes: vec![AlkaneTransfer { id: collector, value: 1 }], data: vec![] };
    let response = c.finish_mint_and_buy(&incoming, minted).unwrap();
    assert_eq!(
        response.alkanes,
        vec![
            AlkaneTransfer { id: collector, value: 1 },
            AlkaneTransfer { id: lottery_token(), value: 3 },
            AlkaneTransfer { id: other, value: 4 },
        ]
    );
}

#[test]
fn mint_and_buy_factory_slots() {
    let mut c = lottery(1);
    c.collector_factory_id = Some(AlkaneId { block: 2, tx: 11 });
    let incoming = tokens(TICKET_PRICE);
    assert_eq!(
        c.begin_mint_and_buy(&incoming),
        Ok(CollectorMint { target: AlkaneId { block: 5, tx: 11 }, ticket_id: 0 })
    );
    c.collector_factory_id = Some(AlkaneId { block: 3, tx: 11 });
    assert_eq!(c.begin_mint_and_buy(&incoming), Err(ContractError::InvalidFactoryBlock { block: 3 }));
    assert_eq!(c.next_ticket_collector_id, 1);
    assert_eq!(c.begin_mint_and_buy(&tokens(0)), Err(ContractError::NoTokensReceived));
}

#[test]
fn purchase_below_one_ticket_is_refused() {
    let mut c = lottery(1);
    assert_eq!(
        c.purchase_tickets(AlkaneId { block: 2, tx: 1 }, &tokens(TICKET_PRICE - 1)).err(),
        Some(ContractError::InsufficientForTicket)
    );
    assert_eq!(c.user_pool_total, 0);
}

#[test]
fn test_lottery_lps_win() {
    let mut c = lottery(1);
    let lp_deposit_amount = TICKET_PRICE * 100;
    let lp_shares = deposit(&mut c, lp_deposit_amount);
    assert_eq!(lp_shares, lp_deposit_amount);
    let collector = AlkaneId { block: 2, tx: 1 };
    mint_and_buy(&mut c, TICKET_PRICE * 5, collector);
    let user_pool = c.user_pool_total;
    let new_lp = c.lp_pool_total + c.lp_fees_total;
    let total_tickets = new_lp * 10000 / TICKET_PRICE;
    assert_eq!(total_tickets, 1_007_450);
    let drawn = c.get_winning_ticket(total_tickets, &genesis_header());
    assert_eq!(drawn, 361_004);
    c.run_jackpot(840_003 + 145, &genesis_header(), &vec![]).unwrap();
    assert!(drawn > 5 * 8500);
    assert_eq!(c.lp_pool_total, new_lp + user_pool);
    assert_eq!(c.reward_claimable_for_collector.get(collector), 0);
    assert_eq!(c.ticket_count_total_bps, 0);
    assert_eq!(c.user_pool_total, 0);
    assert!(c.round_collectors.is_empty());
    assert_eq!(c.tickets_for_collector.get(collector), 0);
    let tokens_received = withdraw(&mut c, lp_shares);
    assert!(tokens_received >= lp_deposit_amount);
    assert_eq!(tokens_received, ((new_lp + user_pool) / TICKET_PRICE) * TICKET_PRICE);
}

#[test]
fn test_lottery_user_wins() {
    let mut c = lottery(1);
    deposit(&mut c, TICKET_PRICE * 10);
    let collector = AlkaneId { block: 2, tx: 1 };
    mint_and_buy(&mut c, TICKET_PRICE * 50, collector);
    let user_pool = c.user_pool_total;
    assert!(user_pool >= c.lp_pool_total + c.lp_fees_total);
    c.run_jackpot(840_003 + 145, &genesis_header(), &vec![]).unwrap();
    assert_eq!(c.reward_claimable_for_collector.get(collector), user_pool);
    assert_eq!(c.last_winner_id, Some(collector));
    assert_eq!(c.lp_pool_total, 0);

    let present = vec![AlkaneTransfer { id: collector, value: 1 }];
    let response = c.withdraw_winnings(collector, &present).unwrap();
    assert_eq!(paid(&response, lottery_token()), user_pool);
    assert_eq!(paid(&response, collector), 1);
    let again = c.withdraw_winnings(collector, &present).unwrap();
    assert_eq!(again.alkanes, present);
    assert_eq!(
        c.withdraw_winnings(collector, &vec![]).err(),
        Some(ContractError::CollectorNotPresented)
    );
}

#[test]
fn test_run_jackpot_too_early_fails() {
    let mut c = lottery(1);
    assert_eq!(c.run_jackpot(840_002, &genesis_header(), &vec![]).err(), Some(ContractError::RoundNotOver));
    assert_eq!(c.last_jackpot_end_block, 840_001);
}

#[test]
fn test_run_jackpot_no_tickets() {
    let mut c = lottery(1);
    let lp_deposit_amount = TICKET_PRICE * 100;
    let lp_shares = deposit(&mut c, lp_deposit_amount);
    let response = c.run_jackpot(840_002 + 145, &genesis_header(), &tokens(3)).unwrap();
    assert_eq!(response.alkanes, tokens(3));
    assert_eq!(c.last_jackpot_end_block, 840_002 + 145);
    assert_eq!(c.jackpot_lock, 0);
    let tokens_received = withdraw(&mut c, lp_shares);
    assert_eq!(tokens_received, lp_deposit_amount);
}

#[test]
fn test_multiple_ticket_purchases() {
    let mut c = lottery(1);
    deposit(&mut c, TICKET_PRICE * 100);
    let collector = AlkaneId { block: 2, tx: 1 };
    mint_and_buy(&mut c, TICKET_PRICE * 3, collector);
    let response = c.purchase_tickets(collector, &tokens(TICKET_PRICE * 7)).unwrap();
    assert!(response.alkanes.is_empty());
    assert_eq!(c.round_collectors, vec![collector]);
    assert_eq!(c.tickets_for_collector.get(collector), 10 * 8500);
    assert_eq!(c.ticket_count_total_bps, 10 * 8500);
}

#[test]
fn test_lp_payout_after_jackpot() {
    let mut c = lottery(1);
    let lp_shares = deposit(&mut c, TICKET_PRICE * 50);
    let collector = AlkaneId { block: 2, tx: 1 };
    mint_and_buy(&mut c, TICKET_PRICE * 20, collector);
    let user_pool = c.user_pool_total;
    let new_lp = c.lp_pool_total + c.lp_fees_total;
    let drawn = c.get_winning_ticket(new_lp * 10000 / TICKET_PRICE, &genesis_header());
    assert_eq!(drawn, 184_704);
    c.run_jackpot(840_003 + 145, &genesis_header(), &vec![]).unwrap();
    assert_eq!(c.lp_pool_total, new_lp + user_pool);
    let lp_payout = withdraw(&mut c, lp_shares);
    assert!(lp_payout > 0);
    assert_eq!(lp_payout, ((new_lp + user_pool) / TICKET_PRICE) * TICKET_PRICE);
}

#[test]
fn player_wins_lp_pool_when_drawn() {
    let mut c = lottery(1);
    deposit(&mut c, TICKET_PRICE * 100);
    let collector = AlkaneId { block: 2, tx: 1 };
    mint_and_buy(&mut c, TICKET_PRICE * 5, collector);
    let user_pool = c.user_pool_total;
    let stake = c.lp_pool_total;
    let fees = c.lp_fees_total;
    assert!(fees > 0);
    let new_lp = stake + fees;
    let mut header = genesis_header();
    let mut tries = 0u32;
    while c.get_winning_ticket(new_lp * 10000 / TICKET_PRICE, &header) > 5 * 8500 {
        header.nonce = header.nonce.wrapping_add(1);
        tries += 1;
        assert!(tries < 100_000);
    }
    c.run_jackpot(840_003 + 145, &header, &vec![]).unwrap();
    assert_eq!(c.reward_claimable_for_collector.get(collector), stake);
    assert_eq!(c.lp_pool_total, user_pool + fees);
    assert_eq!(c.lp_fees_total, 0);
}

#[test]
fn winner_search_walks_cumulative_tickets() {
    let mut c = lottery(1);
    let a = AlkaneId { block: 2, tx: 1 };
    let b = AlkaneId { block: 2, tx: 2 };
    c.purchase_tickets(a, &tokens(TICKET_PRICE * 2)).unwrap();
    c.purchase_tickets(b, &tokens(TICKET_PRICE * 3)).unwrap();
    assert_eq!(c.find_winner_collector(1), Ok(a));
    assert_eq!(c.find_winner_collector(2 * 8500), Ok(a));
    assert_eq!(c.find_winner_collector(2 * 8500 + 1), Ok(b));
    assert_eq!(c.find_winner_collector(5 * 8500), Ok(b));
    assert_eq!(c.find_winner_collector(5 * 8500 + 1), Ok(a));
    assert_eq!(c.get_collector_at_index(1), Ok(b));
    assert_eq!(c.get_collector_at_index(2), Err(ContractError::CollectorNotFound));
    let empty = lottery(1);
    assert_eq!(empty.find_winner_collector(1), Err(ContractError::NoCollectors));
}

#[test]
fn empty_collector_slot_stops_the_search() {
    let mut c = lottery(1);
    let zero = AlkaneId { block: 0, tx: 0 };
    let a = AlkaneId { block: 2, tx: 1 };
    c.purchase_tickets(zero, &tokens(TICKET_PRICE)).unwrap();
    c.purchase_tickets(a, &tokens(TICKET_PRICE)).unwrap();
    assert_eq!(c.find_winner_collector(9000), Err(ContractError::CollectorNotFound));
    c.clear_round_collectors();
    assert_eq!(c.tickets_for_collector.get(a), 0);
    assert_eq!(c.tickets_for_collector.get(zero), 8500);
    assert_eq!(c.round_collectors, vec![zero, zero]);
}

#[test]
fn protocol_fees_are_paid_once() {
    let mut c = lottery(1);
    c.purchase_tickets(AlkaneId { block: 2, tx: 1 }, &tokens(TICKET_PRICE * 10)).unwrap();
    let fees = c.protocol_fee_claimable;
    assert_eq!(fees, TICKET_PRICE * 10 * 10 / 10000);
    let response = c.withdraw_protocol_fees(&vec![]).unwrap();
    assert_eq!(response.alkanes, tokens(fees));
    assert_eq!(c.withdraw_protocol_fees(&vec![]).err(), Some(ContractError::NoProtocolFees));
}

#[test]
fn admin_setters() {
    let mut c = lottery(1);
    assert_eq!(c.admin_set_fee_bps(8001, &vec![]).err(), Some(ContractError::FeeTooHigh));
    assert_eq!(c.fee_bps, 1500);
    c.admin_set_fee_bps(8000, &vec![]).unwrap();
    assert_eq!(c.fee_bps, 8000);
    c.admin_set_ticket_price(7, &vec![]);
    c.admin_set_round_duration_in_blocks(10, &vec![]);
    c.admin_set_protocol_fee_bps(20, &vec![]);
    c.admin_set_lp_pool_cap(99, &vec![]);
    c.admin_set_lp_limit(3, &vec![]);
    c.admin_set_user_limit(4, &vec![]);
    c.admin_set_min_lp_deposit(5, &vec![]);
    c.admin_set_allow_purchasing(0, &vec![]);
    c.jackpot_lock = 1;
    c.admin_force_release_jackpot_lock(&vec![]);
    assert_eq!(
        (c.ticket_price, c.round_duration_in_blocks, c.protocol_fee_bps, c.lp_pool_cap),
        (7, 10, 20, 99)
    );
    assert_eq!(
        (c.lp_limit, c.user_limit, c.min_lp_deposit, c.allow_purchasing, c.jackpot_lock),
        (3, 4, 5, 0, 0)
    );
}

#[test]
fn pool_getters_answer_little_endian() {
    let mut c = lottery(1);
    c.lp_pool_total = 0x0102;
    c.user_pool_total = 7;
    let r = c.get_lp_pool_total(&tokens(1));
    assert_eq!(r.data, 0x0102u128.to_le_bytes().to_vec());
    assert_eq!(r.alkanes, tokens(1));
    assert_eq!(c.get_user_pool_total(&vec![]).data, 7u128.to_le_bytes().to_vec());
    let n = c.get_name(&vec![], &b"Lottery LP".to_vec());
    assert_eq!(n.data, b"Lottery LP".to_vec());
}

#[test]
fn purchase_splits_spend_into_pools_and_fees() {
    let mut c = lottery(1);
    let collector = AlkaneId { block: 2, tx: 4 };
    let balance = TICKET_PRICE * 7 + 123;
    let (user, lp_fees, protocol) = (c.user_pool_total, c.lp_fees_total, c.protocol_fee_claimable);
    let used = c.process_ticket_purchase(collector, balance).unwrap();
    assert_eq!(used, TICKET_PRICE * 7);
    assert_eq!(
        used,
        (c.user_pool_total - user) + (c.lp_fees_total - lp_fees) + (c.protocol_fee_claimable - protocol)
    );
    assert_eq!(c.all_fees_total, TICKET_PRICE * 7 * 1500 / 10000);
    assert_eq!(c.process_ticket_purchase(collector, TICKET_PRICE - 1), Err(ContractError::InsufficientForTicket));
}

#[test]
fn player_win_conserves_pools() {
    let mut c = lottery(1);
    deposit(&mut c, TICKET_PRICE * 40);
    let collector = AlkaneId { block: 2, tx: 1 };
    mint_and_buy(&mut c, TICKET_PRICE * 30, collector);
    let user_pool = c.user_pool_total;
    let new_lp = c.lp_pool_total + c.lp_fees_total;
    assert!(user_pool < new_lp);
    let mut header = genesis_header();
    while c.get_winning_ticket(new_lp * 10000 / TICKET_PRICE, &header) > 30 * 8500 {
        header.nonce = header.nonce.wrapping_add(1);
    }
    c.run_jackpot(840_003 + 145, &header, &vec![]).unwrap();
    let credited = c.reward_claimable_for_collector.get(collector);
    assert_eq!(credited + c.lp_pool_total, new_lp + user_pool);
    assert_eq!(c.last_winner_id, Some(collector));
}

#[test]
fn jackpot_out_of_range_is_not_run() {
    let mut c = lottery(1);
    deposit(&mut c, TICKET_PRICE * 100);
    c.purchase_tickets(AlkaneId { block: 2, tx: 1 }, &tokens(TICKET_PRICE)).unwrap();
    c.admin_set_ticket_price(0, &vec![]);
    assert!(!c.check_jackpot_in_range(840_003 + 145, &genesis_header()));
    assert!(c.try_run_jackpot(840_003 + 145, &genesis_header(), &vec![]).is_none());
    assert_eq!(c.ticket_count_total_bps, 8500);
    c.admin_set_ticket_price(TICKET_PRICE, &vec![]);
    assert!(c.try_run_jackpot(840_003 + 145, &genesis_header(), &vec![]).unwrap().is_ok());
    assert_eq!(c.ticket_count_total_bps, 0);
}

#[test]
fn range_checks_flag_overflow() {
    let mut c = lottery(1);
    assert!(!LotteryContract::check_initialize_in_range(u128::MAX / 1000));
    assert!(LotteryContract::check_initialize_in_range(TICKET_PRICE));
    c.protocol_fee_bps = 2000;
    assert!(!c.check_purchase_in_range(AlkaneId { block: 2, tx: 1 }, TICKET_PRICE * 3));
    assert!(!c.check_purchase_tickets_in_range(AlkaneId { block: 2, tx: 1 }, &tokens(TICKET_PRICE * 3)));
    c.protocol_fee_bps = 10;
    assert!(c.check_purchase_in_range(AlkaneId { block: 2, tx: 1 }, TICKET_PRICE * 3));
    let huge = vec![
        AlkaneTransfer { id: lottery_token(), value: u128::MAX },
        AlkaneTransfer { id: lottery_token(), value: 1 },
    ];
    assert!(!c.check_lp_deposit_in_range(&huge, u128::MAX));
    assert!(!c.check_begin_mint_and_buy_in_range(&huge));
    assert!(!c.check_assets_in_range(5, &tokens(6)));
    c.ticket_price = 0;
    assert!(!c.check_lp_deposit_in_range(&tokens(5), 5));
    c.total_supply = 10;
    let shares = vec![AlkaneTransfer { id: lottery_contract(), value: 5 }];
    assert!(!c.check_lp_withdraw_in_range(lottery_contract(), &shares, 5));
}

#[test]
fn mint_and_buy_below_one_ticket_in_a_running_round_is_refused() {
    let mut c = lottery(1);
    mint_and_buy(&mut c, TICKET_PRICE * 2, AlkaneId { block: 2, tx: 1 });
    let before_total = c.ticket_count_total_bps;
    let before_pool = c.user_pool_total;
    let incoming = tokens(TICKET_PRICE - 1);
    c.begin_mint_and_buy(&incoming).unwrap();
    let minted = CallResponse {
        alkanes: vec![AlkaneTransfer { id: AlkaneId { block: 2, tx: 2 }, value: 1 }],
        data: vec![],
    };
    assert_eq!(
        c.finish_mint_and_buy(&incoming, minted).err(),
        Some(ContractError::InsufficientForTicket)
    );
    assert_eq!(c.ticket_count_total_bps, before_total);
    assert_eq!(c.user_pool_total, before_pool);
    assert_eq!(c.round_collectors.len(), 1);
}

#[test]
fn refused_mint_and_buy_keeps_the_collector_number() {
    let mut c = lottery(0);
    c.next_ticket_collector_id = u128::MAX;
    assert!(c.check_begin_mint_and_buy_in_range(&tokens(TICKET_PRICE)));
    assert_eq!(c.begin_mint_and_buy(&tokens(TICKET_PRICE)), Err(ContractError::PurchasingNotAllowed));
    assert_eq!(c.next_ticket_collector_id, u128::MAX);
    c.allow_purchasing = 1;
    assert!(!c.check_begin_mint_and_buy_in_range(&tokens(TICKET_PRICE)));
}

#[test]
fn round_weights_sum_to_the_round_total() {
    let mut c = lottery(1);
    let a = AlkaneId { block: 2, tx: 1 };
    let b = AlkaneId { block: 2, tx: 2 };
    mint_and_buy(&mut c, TICKET_PRICE * 3, a);
    mint_and_buy(&mut c, TICKET_PRICE * 5, b);
    c.purchase_tickets(a, &tokens(TICKET_PRICE * 2)).unwrap();
    assert_eq!(c.round_collectors, vec![a, b]);
    let sum: u128 = c.round_collectors.iter().map(|id| c.tickets_for_collector.get(*id)).sum();
    assert_eq!(sum, c.ticket_count_total_bps);
    assert_eq!(c.ticket_count_total_bps, 10 * 8500);
    for w in [1u128, 5 * 8500, 5 * 8500 + 1, 8 * 8500, 8 * 8500 + 1, 10 * 8500] {
        let winner = c.find_winner_collector(w).unwrap();
        assert!(c.tickets_for_collector.get(winner) > 0);
    }
    assert_eq!(c.find_winner_collector(5 * 8500), Ok(a));
    assert_eq!(c.find_winner_collector(5 * 8500 + 1), Ok(b));
    assert_eq!(c.find_winner_collector(8 * 8500 + 1), Ok(b));
}

#[test]
fn zero_price_without_tokens_is_refused_as_no_tokens() {
    let mut c = LotteryContract::initialize(lottery_token(), 0, collector_factory(), 1, 840_001);
    let none: Vec<AlkaneTransfer> = vec![];
    let collector = AlkaneId { block: 2, tx: 1 };
    assert!(c.check_purchase_tickets_in_range(collector, &none));
    assert_eq!(c.purchase_tickets(collector, &none).err(), Some(ContractError::NoTokensReceived));
    assert!(!c.check_purchase_tickets_in_range(collector, &tokens(5)));
}

#[test]
fn winnings_are_paid_once() {
    let mut c = lottery(1);
    let collector = AlkaneId { block: 2, tx: 1 };
    c.reward_claimable_for_collector.set(collector, 777);
    let incoming = vec![AlkaneTransfer { id: collector, value: 1 }];
    let first = c.withdraw_winnings(collector, &incoming).unwrap();
    assert_eq!(paid(&first, lottery_token()), 777);
    let second = c.withdraw_winnings(collector, &incoming).unwrap();
    assert_eq!(second.alkanes, incoming);
    assert_eq!(c.reward_claimable_for_collector.get(collector), 0);
}
