use vstd::prelude::*;
use crate::entropy::BlockHeader;
use crate::error::ContractError;
use crate::id::{amount_of, without_id, id_bytes, id_from_bytes, starts_with, AlkaneId, AlkaneTransfer, CallResponse};
use crate::ledger::IdLedger;
use crate::lottery::draw::{
    cumulative, drawn_ticket, header_random, is_present, lemma_cumulative_monotone, lemma_scan_stop_unique,
    round_consistent, scan_passes, scan_stops_at, winner_search, winner_search_in_range,
};
use crate::lottery::pool::{deposit_shares, floor_to_price, lemma_floor_to_price, withdraw_amount};
use crate::lottery::LotteryContract;

verus! {

proof fn lemma_share_bound(pool: int, supply: int, f: int, shares: int)
    by (nonlinear_arith)
    requires
        pool > 0,
        supply >= 0,
        f >= 0,
        shares >= 0,
        shares * pool <= f * supply,
    ensures
        shares * (pool + f) <= f * (supply + shares),
{
}

proof fn lemma_div_le(num: int, den: int, f: int)
    by (nonlinear_arith)
    requires
        den > 0,
        num >= 0,
        num <= f * den,
    ensures
        num / den <= f,
{
}

proof fn lemma_floor_shares(f: int, supply: int, pool: int)
    by (nonlinear_arith)
    requires
        pool > 0,
        f >= 0,
        supply >= 0,
    ensures
        ((f * supply) / pool) * pool <= f * supply,
        (f * supply) / pool >= 0,
{
}

/// A deposit withdrawn at once takes out no more than it paid in: the shares minted
/// for `f` tokens into a pool of `pool` tokens backing `supply` shares, burnt against
/// the grown pool and supply, are worth at most `f` tokens, before and after rounding
/// down to whole tickets.
pub proof fn law_deposit_then_withdraw_returns_at_most(
    pool: u128,
    supply: u128,
    f: u128,
    price: u128,
)
    requires
        price > 0,
        deposit_shares(pool, supply, f) is Some,
        pool + f <= u128::MAX,
        supply + deposit_shares(pool, supply, f)->0 <= u128::MAX,
    ensures
        ({
            let shares = deposit_shares(pool, supply, f)->0;
            &&& withdraw_amount((pool + f) as u128, (supply + shares) as u128, shares) is Some
            &&& withdraw_amount((pool + f) as u128, (supply + shares) as u128, shares)->0 <= f
            &&& floor_to_price(
                withdraw_amount((pool + f) as u128, (supply + shares) as u128, shares)->0,
                price,
            ) <= f
        }),
{
    let shares = deposit_shares(pool, supply, f)->0;
    let den = supply + shares;
    if den > 0 {
        if pool == 0 {
            assert(shares == f);
            assert(shares * (pool + f) <= f * den) by (nonlinear_arith)
                requires
                    shares == f,
                    pool == 0,
                    den == supply + shares,
                    supply >= 0,
                    f >= 0,
            ;
        } else {
            lemma_floor_shares(f as int, supply as int, pool as int);
            lemma_share_bound(pool as int, supply as int, f as int, shares as int);
        }
        lemma_div_le(shares * (pool + f), den, f as int);
    }
    let out = withdraw_amount((pool + f) as u128, (supply + shares) as u128, shares)->0;
    lemma_floor_to_price(out, price);
}

/// A deposit never dilutes the shares already out: with a non-empty pool, tokens per
/// share do not fall, `pool / supply <= (pool + f) / (supply + shares)`.
pub proof fn law_deposit_keeps_share_value(pool: u128, supply: u128, f: u128)
    requires
        pool > 0,
        deposit_shares(pool, supply, f) is Some,
    ensures
        (pool + f) * supply >= pool * (supply + deposit_shares(pool, supply, f)->0),
{
    let shares = deposit_shares(pool, supply, f)->0;
    lemma_floor_shares(f as int, supply as int, pool as int);
    assert((pool + f) * supply >= pool * (supply + shares)) by (nonlinear_arith)
        requires
            shares * pool <= f * supply,
    ;
}

/// A withdrawal never dilutes the shares that stay: tokens per share do not fall,
/// `pool / supply <= (pool - out) / (supply - shares)`.
pub proof fn law_withdraw_keeps_share_value(pool: u128, supply: u128, shares: u128, price: u128)
    requires
        supply > 0,
        price > 0,
        withdraw_amount(pool, supply, shares) is Some,
    ensures
        ({
            let out = floor_to_price(withdraw_amount(pool, supply, shares)->0, price);
            (pool - out) * supply >= pool * (supply - shares)
        }),
{
    let amount = withdraw_amount(pool, supply, shares)->0;
    lemma_floor_to_price(amount, price);
    let out = floor_to_price(amount, price);
    assert(amount * supply <= shares * pool) by (nonlinear_arith)
        requires
            amount == (shares * pool) / (supply as int),
            supply > 0,
            shares >= 0,
            pool >= 0,
    ;
    assert((pool - out) * supply >= pool * (supply - shares)) by (nonlinear_arith)
        requires
            out <= amount,
            amount * supply <= shares * pool,
            supply > 0,
    ;
}

/// What a run of LP withdrawals pays out over its first `n` steps: what each one in turn
/// pays for the shares it burns.
pub open spec fn withdrawn_total(states: Seq<LotteryContract>, shares: Seq<u128>, n: int) -> int
    decreases n,
{
    if n <= 0 {
        0
    } else {
        withdrawn_total(states, shares, n - 1) + states[n - 1].withdraw_out(shares[n - 1])
    }
}

proof fn lemma_ratio_chain(x0: int, s0: int, xn: int, sn: int, xm: int, sm: int)
    by (nonlinear_arith)
    requires
        x0 >= 0,
        s0 >= 0,
        xn >= 0,
        sn >= 0,
        xm >= 0,
        0 <= sm <= sn,
        xn * s0 >= x0 * sn,
        xm * sn >= xn * sm,
    ensures
        xm * s0 >= x0 * sm,
{
    if sn > 0 {
        assert(xm * s0 * sn >= xn * sm * s0);
        assert(xn * s0 * sm >= x0 * sn * sm);
    }
}

/// One withdrawal does not lower the tokens each remaining share stands for.
proof fn lemma_withdrawn_step(old: LotteryContract, new: LotteryContract, shares: u128)
    requires
        LotteryContract::lp_withdrawn(&old, &new, shares),
    ensures
        new.lp_pool_total * old.total_supply >= old.lp_pool_total * new.total_supply,
{
    let x = old.lp_pool_total;
    let sup = old.total_supply;
    let amount = withdraw_amount(x, sup, shares)->0;
    let out = old.withdraw_out(shares);
    if sup > 0 {
        if old.ticket_price > 0 {
            lemma_floor_to_price(amount, old.ticket_price);
        } else {
            assert(out == 0) by (nonlinear_arith)
                requires
                    out == ((amount / old.ticket_price) * old.ticket_price) as u128,
                    old.ticket_price == 0,
            ;
        }
        assert(amount == (shares as int * x as int) / (sup as int));
        assert(out * sup <= shares * x) by (nonlinear_arith)
            requires
                amount == (shares as int * x as int) / (sup as int),
                sup > 0,
                out <= amount,
        ;
        assert((x - out) * sup >= x * (sup - shares)) by (nonlinear_arith)
            requires
                out * sup <= shares * x,
        ;
    } else {
        assert(new.lp_pool_total * sup == 0 && x * new.total_supply == 0) by (nonlinear_arith)
            requires
                sup == 0,
                new.total_supply == 0,
        ;
    }
}

proof fn lemma_withdrawal_prefix(states: Seq<LotteryContract>, shares: Seq<u128>, n: int)
    requires
        states.len() == shares.len() + 1,
        forall|i: int|
            0 <= i < shares.len() ==> LotteryContract::lp_withdrawn(
                &#[trigger] states[i],
                &states[i + 1],
                shares[i],
            ),
        0 <= n <= shares.len(),
    ensures
        withdrawn_total(states, shares, n) <= states[0].lp_pool_total,
        states[n].lp_pool_total == states[0].lp_pool_total - withdrawn_total(states, shares, n),
        states[n].lp_pool_total * states[0].total_supply >= states[0].lp_pool_total
            * states[n].total_supply,
        states[n].total_supply <= states[0].total_supply,
    decreases n,
{
    if n > 0 {
        lemma_withdrawal_prefix(states, shares, n - 1);
        let prev = states[n - 1];
        let next = states[n];
        assert(LotteryContract::lp_withdrawn(&prev, &next, shares[n - 1]));
        lemma_withdrawn_step(prev, next, shares[n - 1]);
        lemma_ratio_chain(
            states[0].lp_pool_total as int,
            states[0].total_supply as int,
            prev.lp_pool_total as int,
            prev.total_supply as int,
            next.lp_pool_total as int,
            next.total_supply as int,
        );
    }
}

/// A run of LP withdrawals with no other call between them pays out no more than the
/// pool it started from, leaves exactly the rest in the pool, and never dilutes the
/// shares that stay: tokens per share do not fall over the run.
pub proof fn law_withdrawal_run(states: Seq<LotteryContract>, shares: Seq<u128>)
    requires
        states.len() == shares.len() + 1,
        forall|i: int|
            0 <= i < shares.len() ==> LotteryContract::lp_withdrawn(
                &#[trigger] states[i],
                &states[i + 1],
                shares[i],
            ),
    ensures
        withdrawn_total(states, shares, shares.len() as int) <= states[0].lp_pool_total,
        states.last().lp_pool_total == states[0].lp_pool_total - withdrawn_total(
            states,
            shares,
            shares.len() as int,
        ),
        states.last().lp_pool_total * states[0].total_supply >= states[0].lp_pool_total
            * states.last().total_supply,
{
    lemma_withdrawal_prefix(states, shares, shares.len() as int);
}

/// The first deposit into an empty pool mints as many shares as it pays tokens, and
/// burning all of them takes the whole deposit back out.
pub proof fn law_first_deposit_withdrawn_whole(amount: u128, price: u128)
    requires
        price > 0,
    ensures
        ({
            let f = floor_to_price(amount, price);
            &&& deposit_shares(0, 0, f) == Some(f)
            &&& f > 0 ==> withdraw_amount(f, f, f) == Some(f)
            &&& floor_to_price(f, price) == f
        }),
{
    let f = floor_to_price(amount, price);
    lemma_floor_to_price(amount, price);
    if f > 0 {
        assert((f as int * f as int) / f as int == f as int) by (nonlinear_arith)
            requires
                f > 0,
        ;
    }
    lemma_floor_to_price(f, price);
    assert(floor_to_price(f, price) == f) by (nonlinear_arith)
        requires
            price > 0,
            f == (amount / price) * price,
            floor_to_price(f, price) == (f / price) * price,
    {
        assert(f / price == amount / price);
    }
}

/// A drawn ticket is one of the tickets `1..=max`.
pub proof fn law_drawn_ticket_in_range(header: BlockHeader, max: u128)
    requires
        max > 0,
    ensures
        1 <= drawn_ticket(header, max) <= max,
{
}

/// The winner holds the drawn ticket: when the search stops at a collector's slot, that
/// collector wins, and the ticket lies beyond the weight of the collectors before it and
/// within the weight up to it.
pub proof fn law_winner_holds_ticket(ids: Seq<AlkaneId>, tickets: IdLedger, w: u128, j: int)
    requires
        scan_stops_at(ids, tickets, w, j),
        is_present(ids[j]),
        w >= 1,
    ensures
        winner_search(ids, tickets, w) == Ok::<AlkaneId, crate::error::ContractError>(ids[j]),
        cumulative(ids, tickets, j) < w <= cumulative(ids, tickets, j + 1),
{
    let k = choose|k: int| scan_stops_at(ids, tickets, w, k);
    lemma_scan_stop_unique(ids, tickets, w, j, k);
    if j > 0 {
        assert(is_present(ids[j - 1]) && w > cumulative(ids, tickets, j));
    }
}

proof fn lemma_find_holder(ids: Seq<AlkaneId>, t: IdLedger, w: u128, k: int) -> (j: int)
    requires
        0 <= k <= ids.len(),
        1 <= w <= cumulative(ids, t, k),
    ensures
        0 <= j < k,
        cumulative(ids, t, j) < w <= cumulative(ids, t, j + 1),
    decreases k,
{
    if w <= cumulative(ids, t, k - 1) {
        lemma_find_holder(ids, t, w, k - 1)
    } else {
        k - 1
    }
}

/// In a consistent round every ticket `1..=total` has a holder: the search finds a
/// listed collector with tickets, whose weight range holds the ticket, and its sums
/// stay within 128 bits.
pub proof fn law_consistent_round_ticket_has_holder(
    ids: Seq<AlkaneId>,
    tickets: IdLedger,
    total: u128,
    w: u128,
)
    requires
        round_consistent(ids, tickets, total),
        1 <= w <= total,
    ensures
        winner_search_in_range(ids, tickets, w),
        exists|j: int|
            #![trigger ids[j]]
            0 <= j < ids.len() && winner_search(ids, tickets, w) == Ok::<
                AlkaneId,
                crate::error::ContractError,
            >(ids[j]) && tickets.spec_get(ids[j]) > 0 && cumulative(ids, tickets, j) < w
                <= cumulative(ids, tickets, j + 1),
{
    let n = ids.len() as int;
    let j = lemma_find_holder(ids, tickets, w, n);
    assert forall|i: int| 0 <= i < j implies is_present(#[trigger] ids[i]) && w > cumulative(
        ids,
        tickets,
        i + 1,
    ) by {
        lemma_cumulative_monotone(ids, tickets, i + 1, j);
    }
    assert(scan_passes(ids, tickets, w, j));
    assert(is_present(ids[j]));
    assert(scan_stops_at(ids, tickets, w, j));
    law_winner_holds_ticket(ids, tickets, w, j);
    assert forall|k: int|
        0 <= k < ids.len() && scan_passes(ids, tickets, w, k) && is_present(#[trigger] ids[k])
            implies cumulative(ids, tickets, k + 1) <= u128::MAX by {
        lemma_cumulative_monotone(ids, tickets, k + 1, n);
    }
}

/// In a consistent round a draw that falls on a player always credits a winner: the
/// drawn ticket has a holder among the round's collectors.
pub proof fn law_consistent_round_player_draw_has_winner(c: LotteryContract, header: BlockHeader)
    requires
        c.round_inv(),
        c.ticket_count_total_bps > 0,
        !c.users_fund_jackpot() ==> 0 < c.lp_ticket_total() <= u128::MAX,
        c.player_drawn(header),
    ensures
        c.jackpot_winner(header) matches Some(w) && c.round_collectors@.contains(w)
            && c.tickets_for_collector.spec_get(w) > 0,
{
    let ids = c.round_collectors@;
    let w = c.jackpot_ticket(header);
    law_consistent_round_ticket_has_holder(ids, c.tickets_for_collector, c.ticket_count_total_bps, w);
    let j = choose|j: int|
        #![trigger ids[j]]
        0 <= j < ids.len() && winner_search(ids, c.tickets_for_collector, w) == Ok::<
            AlkaneId,
            crate::error::ContractError,
        >(ids[j]) && c.tickets_for_collector.spec_get(ids[j]) > 0 && cumulative(
            ids,
            c.tickets_for_collector,
            j,
        ) < w <= cumulative(ids, c.tickets_for_collector, j + 1);
    assert(ids.contains(ids[j]));
}

/// When the LP pool outweighs the user pool and the draw's winner, if it falls on a
/// player, is found, no token is lost: the LP pool after the draw plus what the winner
/// is credited is the LP pool at stake plus the user pool.
pub proof fn law_jackpot_conserves_pools(c: LotteryContract, header: BlockHeader)
    requires
        !c.users_fund_jackpot(),
        c.player_drawn(header) ==> c.jackpot_winner(header) is Some,
    ensures
        c.jackpot_lp_after(header) + (if c.jackpot_winner(header) is Some {
            c.jackpot_prize()
        } else {
            0
        }) == c.jackpot_lp_pool() + c.user_pool_total,
{
}

/// A prize is paid once: after one winnings claim for a collector succeeds, a second
/// claim for it, with no draw between them, sends back only what came in and changes
/// nothing.
pub proof fn law_prize_paid_once(
    s0: LotteryContract,
    s1: LotteryContract,
    s2: LotteryContract,
    collector: AlkaneId,
    first: Seq<crate::id::AlkaneTransfer>,
    second: Seq<crate::id::AlkaneTransfer>,
    r1: Result<crate::id::CallResponse, crate::error::ContractError>,
    r2: Result<crate::id::CallResponse, crate::error::ContractError>,
)
    requires
        r1 is Ok,
        LotteryContract::winnings_withdrawn(&s0, &s1, collector, first, &r1),
        LotteryContract::winnings_withdrawn(&s1, &s2, collector, second, &r2),
    ensures
        s1.reward_claimable_for_collector.spec_get(collector) == 0,
        s2 == s1,
        r2 matches Ok(resp) ==> resp.alkanes@ == second,
{
}

/// An id stored by its bytes reads back as itself.
pub proof fn law_stored_id_reads_back(id: AlkaneId)
    ensures
        id_from_bytes(id_bytes(id)) == Some(id),
{
    crate::id::lemma_id_bytes_roundtrip(id);
}

/// No lottery call's inputs begin with another call's: each input list decodes to one
/// call at most.
pub proof fn law_lottery_messages_unambiguous(
    m1: crate::lottery::LotteryContractMessage,
    m2: crate::lottery::LotteryContractMessage,
)
    requires
        starts_with(m1.encoding(), m2.encoding()),
    ensures
        m1 == m2,
{
    assert(m1.encoding().subrange(0, m2.encoding().len() as int)[0] == m2.encoding()[0]);
    assert(m1.encoding().len() == m2.encoding().len());
    assert(m1.encoding() =~= m2.encoding());
}

/// No lending call's inputs begin with another call's.
pub proof fn law_lending_messages_unambiguous(
    m1: crate::lending::LotteryContractMessage,
    m2: crate::lending::LotteryContractMessage,
)
    requires
        starts_with(m1.encoding(), m2.encoding()),
    ensures
        m1 == m2,
{
    assert(m1.encoding().subrange(0, m2.encoding().len() as int)[0] == m2.encoding()[0]);
    assert(m1.encoding().len() == m2.encoding().len());
    assert(m1.encoding() =~= m2.encoding());
}

/// No ticket-collector call's inputs begin with another call's.
pub proof fn law_ticket_messages_unambiguous(
    m1: crate::ticket::LotteryTicketMessage,
    m2: crate::ticket::LotteryTicketMessage,
)
    requires
        starts_with(m1.encoding(), m2.encoding()),
    ensures
        m1 == m2,
{
    assert(m1.encoding().subrange(0, m2.encoding().len() as int)[0] == m2.encoding()[0]);
    assert(m1.encoding().len() == m2.encoding().len());
    assert(m1.encoding() =~= m2.encoding());
}

/// A successful LP deposit never takes the LP pool past its cap; a deposit that passes
/// the earlier checks (no lock, tokens received within the declared amount, at least one
/// whole ticket) but would pass the cap is refused for the cap, with nothing changed.
pub proof fn law_deposit_respects_cap(
    old: LotteryContract,
    new: LotteryContract,
    myself: AlkaneId,
    incoming: Seq<AlkaneTransfer>,
    amount_desired: u128,
    r: Result<CallResponse, ContractError>,
)
    requires
        LotteryContract::lp_deposit_post(&old, &new, myself, incoming, amount_desired, &r),
        old.ticket_price > 0,
    ensures
        r is Ok ==> old.lp_pool_total + (amount_desired / old.ticket_price) * old.ticket_price
            <= old.lp_pool_cap,
        r is Ok ==> new.lp_pool_total <= new.lp_pool_cap,
        ({
            let floored = (amount_desired / old.ticket_price) * old.ticket_price;
            &&& old.jackpot_lock == 0
            &&& old.token is Some
            &&& 0 < amount_of(incoming, old.token->0) <= amount_desired
            &&& floored > 0
            &&& old.lp_pool_total + floored > old.lp_pool_cap
        }) ==> r == Err::<CallResponse, ContractError>(ContractError::DepositExceedsCap) && new
            == old,
{
    lemma_floor_to_price(amount_desired, old.ticket_price);
}

/// An LP withdrawal of `s` shares, all of them presented, out of a supply of at least
/// `s`, outside a draw, always succeeds: the shares leave the supply and their part of
/// the pool, `s * pool / supply` rounded down and then down to whole tickets, is paid
/// out of the pool, however small the pool is against the shares.
pub proof fn law_withdraw_pays_share_of_pool(
    old: LotteryContract,
    new: LotteryContract,
    myself: AlkaneId,
    incoming: Seq<AlkaneTransfer>,
    s: u128,
    r: Result<CallResponse, ContractError>,
)
    requires
        LotteryContract::lp_withdraw_post(&old, &new, myself, incoming, s, &r),
        old.token is Some,
        amount_of(incoming, myself) == s,
        s > 0,
        s <= old.total_supply,
        old.jackpot_lock == 0,
        old.ticket_price > 0,
    ensures
        ({
            let out = ((s * old.lp_pool_total / old.total_supply as int) / old.ticket_price as int)
                * old.ticket_price;
            &&& r matches Ok(resp) && resp.alkanes@.last() == (AlkaneTransfer {
                id: old.token->0,
                value: out as u128,
            })
            &&& 0 <= out <= old.lp_pool_total
            &&& new.lp_pool_total == old.lp_pool_total - out
            &&& new.total_supply == old.total_supply - s
        }),
{
    let pool = old.lp_pool_total;
    let supply = old.total_supply;
    let amount = s * pool / supply as int;
    assert(0 <= amount <= pool) by (nonlinear_arith)
        requires
            amount == s * pool / supply as int,
            0 < s <= supply,
            pool >= 0,
    ;
    assert(withdraw_amount(pool, supply, s) == Some(amount as u128));
    lemma_floor_to_price(amount as u128, old.ticket_price);
    assert(old.lp_withdraw_refusal(myself, incoming, s) is None);
}

/// A purchase that buys whole tickets adds to the buyer's and to the round's ticket
/// weight exactly the tickets bought times `10000 - fee_bps`, at the contract's current
/// fee; one that buys none is refused with nothing changed.
pub proof fn law_purchase_adds_ticket_weight(
    old: LotteryContract,
    new: LotteryContract,
    collector: AlkaneId,
    balance: u128,
    r: Result<u128, ContractError>,
)
    requires
        LotteryContract::ticket_purchase_post(&old, &new, collector, balance, &r),
        old.ticket_price > 0,
        old.fee_bps <= 10000,
        old.ticket_count_total_bps + (balance / old.ticket_price) * (10000 - old.fee_bps)
            <= u128::MAX,
    ensures
        ({
            let weight = (balance / old.ticket_price) * (10000 - old.fee_bps);
            &&& r is Ok <==> balance >= old.ticket_price
            &&& r is Ok ==> new.tickets_for_collector.spec_get(collector)
                == old.tickets_for_collector.spec_get(collector) + weight
            &&& r is Ok ==> new.ticket_count_total_bps == old.ticket_count_total_bps + weight
            &&& r is Err ==> new == old
        }),
{
    assert((balance / old.ticket_price > 0) == (balance >= old.ticket_price)) by (nonlinear_arith)
        requires
            old.ticket_price > 0,
    ;
}

/// When the players fund the jackpot of a consistent round, the draw credits the holder
/// of the ticket drawn from the block hash among `1..=ticket_count_total_bps`, the
/// collector whose weight range holds `header_random % total + 1`, with the whole user
/// pool on top of what it was already owed; nobody else's credit moves, and the LPs keep
/// nothing.
pub proof fn law_players_fund_drawn_holder_credited(
    old: LotteryContract,
    new: LotteryContract,
    height: u64,
    header: BlockHeader,
    incoming: Seq<AlkaneTransfer>,
    r: Result<CallResponse, ContractError>,
)
    requires
        LotteryContract::jackpot_post(&old, &new, height, header, incoming, &r),
        r is Ok,
        old.round_inv(),
        old.ticket_count_total_bps > 0,
        old.user_pool_total >= old.lp_pool_total + if old.lp_pool_total > 0 {
            old.lp_fees_total as int
        } else {
            0
        },
    ensures
        ({
            let ids = old.round_collectors@;
            let t = old.tickets_for_collector;
            let draw = header_random(header) % old.ticket_count_total_bps + 1;
            exists|j: int|
                #![trigger ids[j]]
                0 <= j < ids.len() && new.last_winner_id == Some(ids[j]) && cumulative(ids, t, j)
                    < draw <= cumulative(ids, t, j + 1)
                    && new.reward_claimable_for_collector.spec_get(ids[j])
                    == old.reward_claimable_for_collector.spec_get(ids[j]) + old.user_pool_total
                    && forall|id: AlkaneId|
                    id != ids[j] ==> #[trigger] new.reward_claimable_for_collector.spec_get(id)
                        == old.reward_claimable_for_collector.spec_get(id)
        }),
        new.lp_pool_total == 0,
{
    let ids = old.round_collectors@;
    let t = old.tickets_for_collector;
    let total = old.ticket_count_total_bps;
    assert(old.users_fund_jackpot());
    let w = drawn_ticket(header, total);
    assert(1 <= w <= total);
    law_consistent_round_ticket_has_holder(ids, t, total, w);
    let j = choose|j: int|
        #![trigger ids[j]]
        0 <= j < ids.len() && winner_search(ids, t, w) == Ok::<AlkaneId, ContractError>(ids[j])
            && t.spec_get(ids[j]) > 0 && cumulative(ids, t, j) < w <= cumulative(ids, t, j + 1);
    assert(old.jackpot_winner(header) == Some(ids[j]));
    assert(new.last_winner_id == Some(ids[j]));
}

/// A draw never lowers what any collector is owed: credits only grow until claimed.
pub proof fn law_draw_never_lowers_credits(
    old: LotteryContract,
    new: LotteryContract,
    height: u64,
    header: BlockHeader,
    incoming: Seq<AlkaneTransfer>,
    r: Result<CallResponse, ContractError>,
    id: AlkaneId,
)
    requires
        LotteryContract::jackpot_post(&old, &new, height, header, incoming, &r),
    ensures
        new.reward_claimable_for_collector.spec_get(id) >= old.reward_claimable_for_collector.spec_get(
            id,
        ),
{
}

/// A successful LP deposit is paid for and priced in proportion: it happens outside a
/// draw, the whole tickets declared (at least one) came in, they join the pool, and the
/// depositor is minted as many shares as tokens into an empty pool, else
/// `floored * supply / pool` rounded down.
pub proof fn law_deposit_mints_proportional_shares(
    old: LotteryContract,
    new: LotteryContract,
    myself: AlkaneId,
    incoming: Seq<AlkaneTransfer>,
    amount_desired: u128,
    r: Result<CallResponse, ContractError>,
)
    requires
        LotteryContract::lp_deposit_post(&old, &new, myself, incoming, amount_desired, &r),
        old.ticket_price > 0,
    ensures
        r matches Ok(resp) ==> {
            let floored = (amount_desired / old.ticket_price) * old.ticket_price;
            let minted = if old.lp_pool_total == 0 {
                floored
            } else {
                floored * old.total_supply / old.lp_pool_total as int
            };
            &&& old.jackpot_lock == 0
            &&& old.token is Some
            &&& 0 < floored <= amount_of(incoming, old.token->0) <= amount_desired
            &&& new.lp_pool_total == old.lp_pool_total + floored
            &&& new.total_supply == old.total_supply + minted
            &&& resp.alkanes@.last() == (AlkaneTransfer { id: myself, value: minted as u128 })
        },
{
    lemma_floor_to_price(amount_desired, old.ticket_price);
}

/// A purchase spends whole tickets only and splits the spend: the fee, `spend * fee_bps
/// / 10000`, goes to the fees, of which `spend * protocol_fee_bps / 10000` is the
/// protocol's and the rest the LPs'; the remainder joins the user pool; and a buyer new
/// to the round is appended to the round's list, one already in it stays in place.
pub proof fn law_purchase_splits_spend(
    old: LotteryContract,
    new: LotteryContract,
    collector: AlkaneId,
    balance: u128,
    r: Result<u128, ContractError>,
)
    requires
        LotteryContract::ticket_purchase_post(&old, &new, collector, balance, &r),
        old.ticket_price > 0,
        old.fee_bps <= 10000,
        ({
            let spend = (balance / old.ticket_price) * old.ticket_price;
            let fee = spend * old.fee_bps / 10000;
            let protocol = spend * old.protocol_fee_bps / 10000;
            &&& protocol <= fee
            &&& old.all_fees_total + fee <= u128::MAX
            &&& old.lp_fees_total + fee - protocol <= u128::MAX
            &&& old.protocol_fee_claimable + protocol <= u128::MAX
            &&& old.user_pool_total + spend <= u128::MAX
        }),
    ensures
        r matches Ok(used) ==> {
            let spend = (balance / old.ticket_price) * old.ticket_price;
            let fee = spend * old.fee_bps / 10000;
            let protocol = spend * old.protocol_fee_bps / 10000;
            &&& used == spend
            &&& 0 < spend <= balance
            &&& balance - spend < old.ticket_price
            &&& new.user_pool_total == old.user_pool_total + spend - fee
            &&& new.all_fees_total == old.all_fees_total + fee
            &&& new.lp_fees_total == old.lp_fees_total + fee - protocol
            &&& new.protocol_fee_claimable == old.protocol_fee_claimable + protocol
            &&& new.lp_pool_total == old.lp_pool_total
            &&& new.round_collectors@ == if old.tickets_for_collector.spec_get(collector) == 0 {
                old.round_collectors@.push(collector)
            } else {
                old.round_collectors@
            }
        },
{
    lemma_floor_to_price(balance, old.ticket_price);
    let spend = (balance / old.ticket_price) * old.ticket_price;
    assert(spend * old.fee_bps / 10000 <= spend) by (nonlinear_arith)
        requires
            spend >= 0,
            old.fee_bps <= 10000,
    ;
    if r is Ok {
        assert(spend > 0) by (nonlinear_arith)
            requires
                balance / old.ticket_price > 0,
                old.ticket_price > 0,
                spend == (balance / old.ticket_price) * old.ticket_price,
        ;
    }
}

/// When the LPs' pool outweighs the user pool, the ticket is drawn among the tickets the
/// LP pool with its fees stands for, `(stake + fees) * 10000 / ticket_price`: a draw
/// beyond the players' tickets gives the LPs both pools and credits nobody; a draw on a
/// player's ticket in a consistent round credits its holder with the LPs' stake, on top
/// of what it was owed, and leaves the LPs the user pool and the fees.
pub proof fn law_lp_funded_draw(
    old: LotteryContract,
    new: LotteryContract,
    height: u64,
    header: BlockHeader,
    incoming: Seq<AlkaneTransfer>,
    r: Result<CallResponse, ContractError>,
)
    requires
        LotteryContract::jackpot_post(&old, &new, height, header, incoming, &r),
        r is Ok,
        old.round_inv(),
        old.ticket_count_total_bps > 0,
        old.lp_pool_total > 0,
        old.user_pool_total < old.lp_pool_total + old.lp_fees_total,
        old.ticket_price > 0,
        (old.lp_pool_total + old.lp_fees_total) * 10000 <= u128::MAX,
        (old.lp_pool_total + old.lp_fees_total) * 10000 / old.ticket_price as int > 0,
    ensures
        ({
            let stake = old.lp_pool_total as int;
            let fees = old.lp_fees_total as int;
            let lp_tickets = (stake + fees) * 10000 / old.ticket_price as int;
            let draw = header_random(header) as int % lp_tickets + 1;
            let ids = old.round_collectors@;
            let t = old.tickets_for_collector;
            &&& new.lp_fees_total == 0
            &&& draw > old.ticket_count_total_bps ==> {
                &&& new.lp_pool_total == stake + fees + old.user_pool_total
                &&& new.last_winner_id == old.last_winner_id
                &&& forall|id: AlkaneId|
                    #[trigger] new.reward_claimable_for_collector.spec_get(id)
                        == old.reward_claimable_for_collector.spec_get(id)
            }
            &&& draw <= old.ticket_count_total_bps ==> exists|j: int|
                #![trigger ids[j]]
                0 <= j < ids.len() && new.last_winner_id == Some(ids[j]) && cumulative(ids, t, j)
                    < draw <= cumulative(ids, t, j + 1)
                    && new.reward_claimable_for_collector.spec_get(ids[j])
                    == old.reward_claimable_for_collector.spec_get(ids[j]) + stake
                    && new.lp_pool_total == old.user_pool_total + fees && forall|id: AlkaneId|
                    id != ids[j] ==> #[trigger] new.reward_claimable_for_collector.spec_get(id)
                        == old.reward_claimable_for_collector.spec_get(id)
        }),
{
    let ids = old.round_collectors@;
    let t = old.tickets_for_collector;
    let total = old.ticket_count_total_bps;
    assert(!old.users_fund_jackpot());
    let max = old.lp_ticket_total() as u128;
    assert(old.jackpot_ticket(header) == drawn_ticket(header, max));
    let w = drawn_ticket(header, max);
    assert(1 <= w <= max);
    if w <= total {
        law_consistent_round_ticket_has_holder(ids, t, total, w);
        let j = choose|j: int|
            #![trigger ids[j]]
            0 <= j < ids.len() && winner_search(ids, t, w) == Ok::<AlkaneId, ContractError>(ids[j])
                && t.spec_get(ids[j]) > 0 && cumulative(ids, t, j) < w <= cumulative(ids, t, j + 1);
        assert(old.jackpot_winner(header) == Some(ids[j]));
    }
}

/// A winnings claim that succeeds pays the collector's whole credit, once, and clears
/// it; a collector with no credit gets back only what it sent.
pub proof fn law_claim_pays_whole_credit(
    old: LotteryContract,
    new: LotteryContract,
    collector: AlkaneId,
    incoming: Seq<AlkaneTransfer>,
    r: Result<CallResponse, ContractError>,
)
    requires
        LotteryContract::winnings_withdrawn(&old, &new, collector, incoming, &r),
    ensures
        r matches Ok(resp) ==> {
            let credit = old.reward_claimable_for_collector.spec_get(collector);
            &&& amount_of(incoming, collector) > 0
            &&& new.reward_claimable_for_collector.spec_get(collector) == 0
            &&& credit > 0 ==> resp.alkanes@.len() == incoming.len() + 1 && resp.alkanes@.last()
                == (AlkaneTransfer { id: old.token->0, value: credit })
            &&& credit == 0 ==> resp.alkanes@ == incoming
            &&& new.lp_pool_total == old.lp_pool_total && new.user_pool_total
                == old.user_pool_total
        },
{
}

/// A draw runs once per round: before the round's last block plus its duration it is
/// refused as not over, while the lock is held as running, both with nothing changed;
/// otherwise it succeeds, sends back what came in, marks the round's end at this height
/// and starts the next round with no tickets. A round without tickets changes nothing
/// else; a round with tickets ends with an empty user pool and collector list.
pub proof fn law_draw_once_per_round(
    old: LotteryContract,
    new: LotteryContract,
    height: u64,
    header: BlockHeader,
    incoming: Seq<AlkaneTransfer>,
    r: Result<CallResponse, ContractError>,
)
    requires
        LotteryContract::jackpot_post(&old, &new, height, header, incoming, &r),
    ensures
        height < old.last_jackpot_end_block + old.round_duration_in_blocks ==> r == Err::<
            CallResponse,
            ContractError,
        >(ContractError::RoundNotOver) && new == old,
        height >= old.last_jackpot_end_block + old.round_duration_in_blocks && old.jackpot_lock
            != 0 ==> r == Err::<CallResponse, ContractError>(ContractError::JackpotRunning) && new
            == old,
        height >= old.last_jackpot_end_block + old.round_duration_in_blocks && old.jackpot_lock
            == 0 ==> (r matches Ok(resp) && resp.alkanes@ == incoming),
        r is Ok ==> new.last_jackpot_end_block == height && new.jackpot_lock == 0
            && new.ticket_count_total_bps == 0,
        r is Ok && old.ticket_count_total_bps == 0 ==> new.lp_pool_total == old.lp_pool_total
            && new.user_pool_total == old.user_pool_total && new.lp_fees_total
            == old.lp_fees_total && new.reward_claimable_for_collector
            == old.reward_claimable_for_collector,
        r is Ok && old.ticket_count_total_bps > 0 ==> new.user_pool_total == 0
            && new.round_collectors@.len() == 0 && new.all_fees_total == 0,
{
}

/// The refusals of an LP deposit, in the order they are checked: while a draw holds the
/// lock; without the token setting; when nothing came in or more than declared; when
/// the declared amount is less than a ticket. Each leaves the contract unchanged.
pub proof fn law_deposit_refusals(
    old: LotteryContract,
    new: LotteryContract,
    myself: AlkaneId,
    incoming: Seq<AlkaneTransfer>,
    amount_desired: u128,
    r: Result<CallResponse, ContractError>,
)
    requires
        LotteryContract::lp_deposit_post(&old, &new, myself, incoming, amount_desired, &r),
        old.ticket_price > 0,
    ensures
        r is Err ==> new == old,
        old.jackpot_lock != 0 ==> r == Err::<CallResponse, ContractError>(
            ContractError::JackpotRunning,
        ),
        old.jackpot_lock == 0 && old.token is None ==> r == Err::<CallResponse, ContractError>(
            ContractError::StorageDecode,
        ),
        old.jackpot_lock == 0 && old.token is Some && (amount_of(incoming, old.token->0) == 0
            || amount_of(incoming, old.token->0) > amount_desired) ==> r == Err::<
            CallResponse,
            ContractError,
        >(ContractError::InvalidDepositAmount),
        old.jackpot_lock == 0 && old.token is Some && 0 < amount_of(incoming, old.token->0)
            <= amount_desired < old.ticket_price ==> r == Err::<CallResponse, ContractError>(
            ContractError::DepositBelowTicketPrice,
        ),
{
    lemma_floor_to_price(amount_desired, old.ticket_price);
    if amount_desired < old.ticket_price {
        assert(amount_desired / old.ticket_price == 0) by (nonlinear_arith)
            requires
                amount_desired < old.ticket_price,
        ;
    }
}

/// The refusals of an LP withdrawal, in the order they are checked: without the token
/// setting; when no shares came in or more than declared; while a draw holds the lock;
/// when fewer shares exist than declared; when fewer came in than declared. Each leaves
/// the contract unchanged.
pub proof fn law_withdraw_refusals(
    old: LotteryContract,
    new: LotteryContract,
    myself: AlkaneId,
    incoming: Seq<AlkaneTransfer>,
    amount_desired: u128,
    r: Result<CallResponse, ContractError>,
)
    requires
        LotteryContract::lp_withdraw_post(&old, &new, myself, incoming, amount_desired, &r),
    ensures
        r is Err ==> new == old,
        old.token is None ==> r == Err::<CallResponse, ContractError>(
            ContractError::StorageDecode,
        ),
        old.token is Some && (amount_of(incoming, myself) == 0 || amount_of(incoming, myself)
            > amount_desired) ==> r == Err::<CallResponse, ContractError>(
            ContractError::InvalidWithdrawAmount,
        ),
        old.token is Some && 0 < amount_of(incoming, myself) <= amount_desired && old.jackpot_lock
            != 0 ==> r == Err::<CallResponse, ContractError>(ContractError::JackpotRunning),
        old.token is Some && 0 < amount_of(incoming, myself) <= amount_desired && old.jackpot_lock
            == 0 && old.total_supply < amount_desired ==> r == Err::<CallResponse, ContractError>(
            ContractError::InsufficientShares,
        ),
        r is Ok ==> old.jackpot_lock == 0 && amount_of(incoming, myself) == amount_desired
            && amount_desired <= old.total_supply,
{
}

/// The refusals of a ticket purchase, in the order they are checked, each with nothing
/// changed: sales off; a draw holding the lock; no lottery token; less than a ticket.
/// A purchase that succeeds sends back what buys no whole ticket, `received -
/// (received / price) * price`, first when there is any, then every other alkane.
pub proof fn law_purchase_tickets_refusals_and_refund(
    old: LotteryContract,
    new: LotteryContract,
    collector: AlkaneId,
    incoming: Seq<AlkaneTransfer>,
    r: Result<CallResponse, ContractError>,
)
    requires
        LotteryContract::purchase_tickets_post(&old, &new, collector, incoming, &r),
        old.ticket_price > 0,
        old.token is Some ==> amount_of(incoming, old.token->0) <= u128::MAX,
    ensures
        r is Err ==> new == old,
        old.allow_purchasing == 0 ==> r == Err::<CallResponse, ContractError>(
            ContractError::PurchasingNotAllowed,
        ),
        old.allow_purchasing != 0 && old.jackpot_lock != 0 ==> r == Err::<
            CallResponse,
            ContractError,
        >(ContractError::JackpotRunning),
        old.allow_purchasing != 0 && old.jackpot_lock == 0 && old.token is Some && amount_of(
            incoming,
            old.token->0,
        ) == 0 ==> r == Err::<CallResponse, ContractError>(ContractError::NoTokensReceived),
        old.allow_purchasing != 0 && old.jackpot_lock == 0 && old.token is Some && 0 < amount_of(
            incoming,
            old.token->0,
        ) < old.ticket_price ==> r == Err::<CallResponse, ContractError>(
            ContractError::InsufficientForTicket,
        ),
        r matches Ok(resp) ==> {
            let token = old.token->0;
            let received = amount_of(incoming, token);
            let rest = received - (received as int / old.ticket_price as int) * old.ticket_price;
            &&& old.allow_purchasing != 0
            &&& old.jackpot_lock == 0
            &&& received >= old.ticket_price
            &&& resp.alkanes@ == (if rest > 0 {
                seq![AlkaneTransfer { id: token, value: rest as u128 }]
            } else {
                Seq::empty()
            }) + without_id(incoming, token)
        },
{
    if old.token is Some {
        let received = amount_of(incoming, old.token->0);
        if received < old.ticket_price {
            assert(received as int / old.ticket_price as int == 0) by (nonlinear_arith)
                requires
                    0 <= received < old.ticket_price,
            ;
        }
        assert((received as int / old.ticket_price as int > 0) == (received >= old.ticket_price))
            by (nonlinear_arith)
            requires
                old.ticket_price > 0,
                received >= 0,
        ;
        if let Ok(resp) = r {
            let token = old.token->0;
            let balance = old.purchase_balance(incoming);
            assert(balance as int == received);
            let rest = received - (received as int / old.ticket_price as int) * old.ticket_price;
            let used = crate::lottery::tickets::used_amount(balance, old.ticket_price);
            lemma_floor_to_price(balance, old.ticket_price);
            assert(rest == balance - used);
            assert(resp.alkanes@ =~= (if rest > 0 {
                seq![AlkaneTransfer { id: token, value: rest as u128 }]
            } else {
                Seq::empty()
            }) + without_id(incoming, token));
        }
    }
}

} // verus!
