//! The round's draw: the block-hash ticket, the search for its holder, and settling the
//! pools.

use vstd::prelude::*;
use vstd::array::array_as_slice;
use vstd::bytes::{spec_u128_from_le_bytes, u128_from_le_bytes};
use vstd::slice::slice_subrange;
use crate::entropy::{header_block_hash, header_hash, BlockHeader};
use crate::error::ContractError;
use crate::id::{AlkaneId, AlkaneTransfer, CallResponse};
use crate::ledger::IdLedger;
use crate::lottery::LotteryContract;

verus! {

/// Whether a slot of the round's collector list holds a collector: an empty slot reads
/// as block 0, transaction 0.
pub open spec fn is_present(id: AlkaneId) -> bool {
    !(id.block == 0 && id.tx == 0)
}

/// The ticket weight of the first `k` collectors of `ids`.
pub open spec fn cumulative(ids: Seq<AlkaneId>, tickets: IdLedger, k: int) -> int
    decreases k,
{
    if k <= 0 || k > ids.len() {
        0
    } else {
        cumulative(ids, tickets, k - 1) + tickets.spec_get(ids[k - 1])
    }
}

/// The search for ticket `w` goes past the first `j` collectors: each is present and the
/// ticket lies beyond their cumulative weight.
pub open spec fn scan_passes(ids: Seq<AlkaneId>, tickets: IdLedger, w: u128, j: int) -> bool {
    forall|i: int|
        0 <= i < j ==> is_present(#[trigger] ids[i]) && w > cumulative(ids, tickets, i + 1)
}

/// The search for ticket `w` stops at the `j`-th collector: it reaches it, and the slot is
/// empty or the ticket lies within the cumulative weight up to it.
pub open spec fn scan_stops_at(ids: Seq<AlkaneId>, tickets: IdLedger, w: u128, j: int) -> bool {
    &&& 0 <= j < ids.len()
    &&& scan_passes(ids, tickets, w, j)
    &&& (!is_present(ids[j]) || w <= cumulative(ids, tickets, j + 1))
}

/// The collector slot at `index`, when it holds a collector.
pub open spec fn collector_at(ids: Seq<AlkaneId>, index: int) -> Result<AlkaneId, ContractError> {
    if 0 <= index < ids.len() && is_present(ids[index]) {
        Ok(ids[index])
    } else {
        Err(ContractError::CollectorNotFound)
    }
}

/// The holder of ticket `w`: the first collector whose cumulative weight reaches it;
/// when no collector's does, the first collector; refused when the search meets an
/// empty slot, or the round has no collectors.
pub open spec fn winner_search(ids: Seq<AlkaneId>, tickets: IdLedger, w: u128) -> Result<
    AlkaneId,
    ContractError,
> {
    if exists|j: int| scan_stops_at(ids, tickets, w, j) {
        collector_at(ids, choose|j: int| scan_stops_at(ids, tickets, w, j))
    } else if ids.len() > 0 {
        collector_at(ids, 0)
    } else {
        Err(ContractError::NoCollectors)
    }
}

/// The search for ticket `w` sums ticket weights within 128 bits.
pub open spec fn winner_search_in_range(ids: Seq<AlkaneId>, tickets: IdLedger, w: u128) -> bool {
    forall|j: int|
        0 <= j < ids.len() && scan_passes(ids, tickets, w, j) && is_present(#[trigger] ids[j])
            ==> cumulative(ids, tickets, j + 1) <= u128::MAX
}

/// The search stops at one collector at most.
pub proof fn lemma_scan_stop_unique(
    ids: Seq<AlkaneId>,
    tickets: IdLedger,
    w: u128,
    j1: int,
    j2: int,
)
    requires
        scan_stops_at(ids, tickets, w, j1),
        scan_stops_at(ids, tickets, w, j2),
    ensures
        j1 == j2,
{
    if j1 < j2 {
        assert(is_present(ids[j1]) && w > cumulative(ids, tickets, j1 + 1));
    } else if j2 < j1 {
        assert(is_present(ids[j2]) && w > cumulative(ids, tickets, j2 + 1));
    }
}

/// The round's bookkeeping: each listed collector is present, listed once and holds
/// tickets; no collector off the list holds any; and the listed weights sum to the
/// round's ticket total.
pub open spec fn round_consistent(ids: Seq<AlkaneId>, tickets: IdLedger, total: u128) -> bool {
    &&& forall|i: int|
        0 <= i < ids.len() ==> is_present(#[trigger] ids[i]) && tickets.spec_get(ids[i]) > 0
    &&& forall|i: int, j: int| 0 <= i < j < ids.len() ==> #[trigger] ids[i] != #[trigger] ids[j]
    &&& forall|id: AlkaneId| !ids.contains(id) ==> #[trigger] tickets.spec_get(id) == 0
    &&& cumulative(ids, tickets, ids.len() as int) == total
}

/// Two ledgers that agree on the first `k` collectors weigh them alike.
pub proof fn lemma_cumulative_agree(ids: Seq<AlkaneId>, t1: IdLedger, t2: IdLedger, k: int)
    requires
        0 <= k <= ids.len(),
        forall|i: int| 0 <= i < k ==> t1.spec_get(#[trigger] ids[i]) == t2.spec_get(ids[i]),
    ensures
        cumulative(ids, t1, k) == cumulative(ids, t2, k),
    decreases k,
{
    if k > 0 {
        lemma_cumulative_agree(ids, t1, t2, k - 1);
    }
}

/// Appending a collector leaves the weight of the collectors before it unchanged.
pub proof fn lemma_cumulative_push(ids: Seq<AlkaneId>, c: AlkaneId, t: IdLedger, k: int)
    requires
        0 <= k <= ids.len(),
    ensures
        cumulative(ids.push(c), t, k) == cumulative(ids, t, k),
    decreases k,
{
    if k > 0 {
        lemma_cumulative_push(ids, c, t, k - 1);
        assert(ids.push(c)[k - 1] == ids[k - 1]);
    }
}

/// Raising one listed collector's weight by `d` raises the weight of every prefix
/// holding it by `d`, and leaves the prefixes before it unchanged.
pub proof fn lemma_cumulative_raise(
    ids: Seq<AlkaneId>,
    t1: IdLedger,
    t2: IdLedger,
    p: int,
    d: int,
    k: int,
)
    requires
        0 <= p < ids.len(),
        0 <= k <= ids.len(),
        forall|i: int, j: int| 0 <= i < j < ids.len() ==> #[trigger] ids[i] != #[trigger] ids[j],
        t2.spec_get(ids[p]) == t1.spec_get(ids[p]) + d,
        forall|id: AlkaneId| id != ids[p] ==> t2.spec_get(id) == t1.spec_get(id),
    ensures
        cumulative(ids, t2, k) == cumulative(ids, t1, k) + if k > p {
            d
        } else {
            0
        },
    decreases k,
{
    if k > 0 {
        lemma_cumulative_raise(ids, t1, t2, p, d, k - 1);
        if k - 1 != p {
            if k - 1 < p {
                assert(ids[k - 1] != ids[p]);
            } else {
                assert(ids[p] != ids[k - 1]);
            }
        }
    }
}

/// Prefix weights never fall as the prefix grows.
pub proof fn lemma_cumulative_monotone(ids: Seq<AlkaneId>, t: IdLedger, a: int, b: int)
    requires
        0 <= a <= b <= ids.len(),
    ensures
        cumulative(ids, t, a) <= cumulative(ids, t, b),
    decreases b - a,
{
    if a < b {
        lemma_cumulative_monotone(ids, t, a, b - 1);
    }
}

/// The number drawn from a block header: the first 16 bytes of its hash, little-endian.
pub open spec fn header_random(header: BlockHeader) -> u128 {
    spec_u128_from_le_bytes(header_hash(header).subrange(0, 16))
}

/// The ticket drawn from a block header among tickets `1..=max`.
pub open spec fn drawn_ticket(header: BlockHeader, max: u128) -> u128
    recommends
        max > 0,
{
    (header_random(header) % max + 1) as u128
}

impl LotteryContract {
    /// The round's bookkeeping holds: see `round_consistent`.
    pub open spec fn round_inv(&self) -> bool {
        round_consistent(self.round_collectors@, self.tickets_for_collector, self.ticket_count_total_bps)
    }

    /// The collector in slot `index` of the round's list; refused for an empty slot.
    pub fn get_collector_at_index(&self, index: u128) -> (r: Result<AlkaneId, ContractError>)
        ensures
            r == collector_at(self.round_collectors@, index as int),
    {
        if index < self.round_collectors.len() as u128 {
            let id = self.round_collectors[index as usize];
            if id.block == 0 && id.tx == 0 {
                return Err(ContractError::CollectorNotFound);
            }
            Ok(id)
        } else {
            Err(ContractError::CollectorNotFound)
        }
    }

    /// The collector holding ticket `winning_ticket` of the round.
    pub fn find_winner_collector(&self, winning_ticket: u128) -> (r: Result<
        AlkaneId,
        ContractError,
    >)
        requires
            winner_search_in_range(
                self.round_collectors@,
                self.tickets_for_collector,
                winning_ticket,
            ),
        ensures
            r == winner_search(self.round_collectors@, self.tickets_for_collector, winning_ticket),
    {
        let ghost ids = self.round_collectors@;
        let ghost t = self.tickets_for_collector;
        let num_collectors = self.round_collectors.len();
        let mut cumulative_tickets_bps: u128 = 0;
        let mut i: usize = 0;
        while i < num_collectors
            invariant
                num_collectors == ids.len(),
                ids == self.round_collectors@,
                t == self.tickets_for_collector,
                i <= num_collectors,
                scan_passes(ids, t, winning_ticket, i as int),
                cumulative_tickets_bps == cumulative(ids, t, i as int),
                winner_search_in_range(ids, t, winning_ticket),
            decreases num_collectors - i,
        {
            let collector_id = match self.get_collector_at_index(i as u128) {
                Ok(c) => c,
                Err(e) => {
                    proof {
                        assert(scan_stops_at(ids, t, winning_ticket, i as int));
                        let j = choose|j: int| scan_stops_at(ids, t, winning_ticket, j);
                        lemma_scan_stop_unique(ids, t, winning_ticket, i as int, j);
                    }
                    return Err(e);
                },
            };
            let tickets = self.tickets_for_collector.get(collector_id);
            assert(is_present(ids[i as int]));
            cumulative_tickets_bps = cumulative_tickets_bps + tickets;
            if winning_ticket <= cumulative_tickets_bps {
                proof {
                    assert(scan_stops_at(ids, t, winning_ticket, i as int));
                    let j = choose|j: int| scan_stops_at(ids, t, winning_ticket, j);
                    lemma_scan_stop_unique(ids, t, winning_ticket, i as int, j);
                }
                return Ok(collector_id);
            }
            i = i + 1;
        }
        proof {
            assert forall|j: int| !scan_stops_at(ids, t, winning_ticket, j) by {
                if scan_stops_at(ids, t, winning_ticket, j) {
                    assert(is_present(ids[j]) && winning_ticket > cumulative(ids, t, j + 1));
                }
            }
        }
        if num_collectors > 0 {
            return self.get_collector_at_index(0);
        }
        Err(ContractError::NoCollectors)
    }

    /// Whether the search for ticket `w` stays in range.
    pub fn check_winner_search_in_range(&self, w: u128) -> (r: bool)
        ensures
            r == winner_search_in_range(self.round_collectors@, self.tickets_for_collector, w),
    {
        let ghost ids = self.round_collectors@;
        let ghost t = self.tickets_for_collector;
        let n = self.round_collectors.len();
        let mut acc: u128 = 0;
        let mut i: usize = 0;
        while i < n
            invariant
                n == ids.len(),
                ids == self.round_collectors@,
                t == self.tickets_for_collector,
                i <= n,
                scan_passes(ids, t, w, i as int),
                acc == cumulative(ids, t, i as int),
                forall|j: int|
                    0 <= j < i && scan_passes(ids, t, w, j) && is_present(#[trigger] ids[j])
                        ==> cumulative(ids, t, j + 1) <= u128::MAX,
            decreases n - i,
        {
            let id = self.round_collectors[i];
            if id.block == 0 && id.tx == 0 {
                proof {
                    assert forall|j: int|
                        0 <= j < ids.len() && scan_passes(ids, t, w, j) && is_present(
                            #[trigger] ids[j],
                        ) implies cumulative(ids, t, j + 1) <= u128::MAX by {
                        if j > i {
                            assert(is_present(ids[i as int]));
                        }
                    }
                }
                return true;
            }
            let next = match acc.checked_add(self.tickets_for_collector.get(id)) {
                Some(v) => v,
                None => {
                    return false;
                },
            };
            if w <= next {
                proof {
                    assert forall|j: int|
                        0 <= j < ids.len() && scan_passes(ids, t, w, j) && is_present(
                            #[trigger] ids[j],
                        ) implies cumulative(ids, t, j + 1) <= u128::MAX by {
                        if j > i {
                            assert(w > cumulative(ids, t, i + 1));
                        }
                    }
                }
                return true;
            }
            acc = next;
            i = i + 1;
        }
        true
    }

    /// Empties every slot of the round's collector list and zeroes the ticket weight of
    /// each collector it held.
    pub fn clear_round_collectors(&mut self)
        ensures
            final(self).round_collectors@.len() == old(self).round_collectors@.len(),
            forall|i: int|
                0 <= i < final(self).round_collectors@.len() ==> !is_present(
                    #[trigger] final(self).round_collectors@[i],
                ),
            forall|id: AlkaneId|
                #[trigger] final(self).tickets_for_collector.spec_get(id) == if is_present(id)
                    && old(self).round_collectors@.contains(id) {
                    0
                } else {
                    old(self).tickets_for_collector.spec_get(id)
                },
            *final(self) == (LotteryContract {
                round_collectors: final(self).round_collectors,
                tickets_for_collector: final(self).tickets_for_collector,
                ..*old(self)
            }),
            old(self).round_inv() ==> forall|id: AlkaneId|
                #[trigger] final(self).tickets_for_collector.spec_get(id) == 0,
    {
        let num_collectors = self.round_collectors.len();
        let ghost ids = self.round_collectors@;
        let mut i: usize = 0;
        while i < num_collectors
            invariant
                num_collectors == ids.len(),
                ids == old(self).round_collectors@,
                self.round_collectors@.len() == ids.len(),
                i <= num_collectors,
                forall|k: int| 0 <= k < i ==> !is_present(#[trigger] self.round_collectors@[k]),
                forall|k: int| i <= k < ids.len() ==> #[trigger] self.round_collectors@[k] == ids[k],
                forall|id: AlkaneId|
                    #[trigger] self.tickets_for_collector.spec_get(id) == if is_present(id) && (
                    exists|k: int| 0 <= k < i && #[trigger] ids[k] == id) {
                        0
                    } else {
                        old(self).tickets_for_collector.spec_get(id)
                    },
                *self == (LotteryContract {
                    round_collectors: self.round_collectors,
                    tickets_for_collector: self.tickets_for_collector,
                    ..*old(self)
                }),
            decreases num_collectors - i,
        {
            if let Ok(collector_id) = self.get_collector_at_index(i as u128) {
                self.tickets_for_collector.set(collector_id, 0);
            }
            self.round_collectors.set(i, AlkaneId { block: 0, tx: 0 });
            proof {
                assert forall|id: AlkaneId|
                    #[trigger] self.tickets_for_collector.spec_get(id) == if is_present(id) && (
                    exists|k: int| 0 <= k < i + 1 && #[trigger] ids[k] == id) {
                        0
                    } else {
                        old(self).tickets_for_collector.spec_get(id)
                    } by {
                    if id == ids[i as int] {
                        assert(0 <= i < i + 1 && ids[i as int] == id);
                    }
                }
            }
            i = i + 1;
        }
        proof {
            if old(self).round_inv() {
                assert forall|id: AlkaneId| #[trigger]
                    self.tickets_for_collector.spec_get(id) == 0 by {
                    if ids.contains(id) {
                        let k = choose|k: int| 0 <= k < ids.len() && ids[k] == id;
                        assert(is_present(ids[k]));
                        assert(0 <= k < num_collectors && ids[k] == id);
                    } else {
                        assert(old(self).tickets_for_collector.spec_get(id) == 0);
                    }
                }
            }
        }
    }

    /// The number a block header draws: the first 16 bytes of the block hash, read
    /// little-endian.
    pub fn block_hash_to_u128(&self, header: &BlockHeader) -> (r: u128)
        ensures
            r == header_random(*header),
    {
        let hash_bytes = header_block_hash(header);
        u128_from_le_bytes(slice_subrange(array_as_slice(&hash_bytes), 0, 16))
    }

    /// The ticket a block header draws among tickets `1..=max`.
    pub fn get_winning_ticket(&self, max: u128, header: &BlockHeader) -> (r: u128)
        requires
            max > 0,
        ensures
            r == drawn_ticket(*header, max),
            1 <= r <= max,
    {
        let random_value = self.block_hash_to_u128(header);
        (random_value % max) + 1
    }

    /// The round's accrued LP fees join the LP pool when both are non-zero.
    pub open spec fn fees_distributed(&self) -> bool {
        self.lp_pool_total > 0 && self.lp_fees_total > 0
    }

    /// The LP fees that join the LP pool for the draw.
    pub open spec fn jackpot_fees(&self) -> int {
        if self.fees_distributed() {
            self.lp_fees_total as int
        } else {
            0
        }
    }

    /// The LP pool at stake in the draw: the LPs' stake and the fees that join it.
    pub open spec fn jackpot_lp_pool(&self) -> int {
        self.lp_pool_total + self.jackpot_fees()
    }

    /// The user pool covers the LP pool: a player wins for sure.
    pub open spec fn users_fund_jackpot(&self) -> bool {
        self.user_pool_total >= self.jackpot_lp_pool()
    }

    /// The tickets the LP pool stands for when it is larger than the user pool.
    pub open spec fn lp_ticket_total(&self) -> int {
        (self.jackpot_lp_pool() * 10000) / self.ticket_price as int
    }

    /// The ticket drawn: among the players' tickets when they fund the jackpot, else
    /// among the tickets the LP pool stands for.
    pub open spec fn jackpot_ticket(&self, header: BlockHeader) -> u128 {
        if self.users_fund_jackpot() {
            drawn_ticket(header, self.ticket_count_total_bps)
        } else {
            drawn_ticket(header, self.lp_ticket_total() as u128)
        }
    }

    /// The draw falls on a player's ticket.
    pub open spec fn player_drawn(&self, header: BlockHeader) -> bool {
        self.users_fund_jackpot() || self.jackpot_ticket(header) <= self.ticket_count_total_bps
    }

    /// The collector credited with the jackpot, if the draw falls on a player and the
    /// search finds the ticket's holder.
    pub open spec fn jackpot_winner(&self, header: BlockHeader) -> Option<AlkaneId> {
        if self.player_drawn(header) {
            match winner_search(
                self.round_collectors@,
                self.tickets_for_collector,
                self.jackpot_ticket(header),
            ) {
                Ok(w) => Some(w),
                Err(_) => None,
            }
        } else {
            None
        }
    }

    /// What the winning player is credited: the user pool when players fund the
    /// jackpot, else the LPs' stake, without the round's fees.
    pub open spec fn jackpot_prize(&self) -> int {
        if self.users_fund_jackpot() {
            self.user_pool_total as int
        } else {
            self.lp_pool_total as int
        }
    }

    /// The LP pool after the draw: nothing when players fund the jackpot; the user pool
    /// and the round's fees when a player wins the LPs' stake; both pools when the LPs
    /// win.
    pub open spec fn jackpot_lp_after(&self, header: BlockHeader) -> int {
        if self.users_fund_jackpot() {
            0
        } else if self.player_drawn(header) {
            if self.jackpot_winner(header) is Some {
                self.user_pool_total + self.jackpot_fees()
            } else {
                self.jackpot_lp_pool()
            }
        } else {
            self.jackpot_lp_pool() + self.user_pool_total
        }
    }

    /// The jackpot's arithmetic stays in range: the contract panics where a sum or
    /// product overflows, or a division or remainder is by zero.
    pub open spec fn jackpot_in_range(&self, height: u64, header: BlockHeader) -> bool {
        &&& self.last_jackpot_end_block + self.round_duration_in_blocks <= u128::MAX
        &&& height >= self.last_jackpot_end_block + self.round_duration_in_blocks
            && self.jackpot_lock == 0 && self.ticket_count_total_bps > 0 ==> {
            &&& self.jackpot_lp_pool() <= u128::MAX
            &&& !self.users_fund_jackpot() ==> {
                &&& self.jackpot_lp_pool() * 10000 <= u128::MAX
                &&& self.ticket_price > 0
                &&& self.lp_ticket_total() > 0
            }
            &&& self.player_drawn(header) ==> winner_search_in_range(
                self.round_collectors@,
                self.tickets_for_collector,
                self.jackpot_ticket(header),
            )
            &&& self.jackpot_winner(header) matches Some(w) ==> self.reward_claimable_for_collector.spec_get(
                w,
            ) + self.jackpot_prize() <= u128::MAX
            &&& self.jackpot_lp_after(header) <= u128::MAX
        }
    }

    /// Whether `run_jackpot` stays in range.
    pub fn check_jackpot_in_range(&self, height: u64, header: &BlockHeader) -> (r: bool)
        ensures
            r == self.jackpot_in_range(height, *header),
    {
        let end = match self.last_jackpot_end_block.checked_add(self.round_duration_in_blocks) {
            Some(v) => v,
            None => {
                return false;
            },
        };
        if !((height as u128) >= end && self.jackpot_lock == 0 && self.ticket_count_total_bps > 0) {
            return true;
        }
        let new_lp = if self.lp_pool_total > 0 && self.lp_fees_total > 0 {
            match self.lp_pool_total.checked_add(self.lp_fees_total) {
                Some(v) => v,
                None => {
                    return false;
                },
            }
        } else {
            self.lp_pool_total
        };
        let users_fund = self.user_pool_total >= new_lp;
        let ticket = if users_fund {
            self.get_winning_ticket(self.ticket_count_total_bps, header)
        } else {
            let scaled = match new_lp.checked_mul(10000) {
                Some(v) => v,
                None => {
                    return false;
                },
            };
            if self.ticket_price == 0 {
                return false;
            }
            let total_tickets = scaled / self.ticket_price;
            if total_tickets == 0 {
                return false;
            }
            self.get_winning_ticket(total_tickets, header)
        };
        let player_drawn = users_fund || ticket <= self.ticket_count_total_bps;
        let winner = if player_drawn {
            if !self.check_winner_search_in_range(ticket) {
                return false;
            }
            match self.find_winner_collector(ticket) {
                Ok(w) => Some(w),
                Err(_) => None,
            }
        } else {
            None
        };
        let prize = if users_fund {
            self.user_pool_total
        } else {
            self.lp_pool_total
        };
        if let Some(w) = winner {
            if self.reward_claimable_for_collector.get(w).checked_add(prize).is_none() {
                return false;
            }
        }
        if users_fund {
            return true;
        }
        if !player_drawn {
            return new_lp.checked_add(self.user_pool_total).is_some();
        }
        if winner.is_some() {
            return self.user_pool_total.checked_add(new_lp - self.lp_pool_total).is_some();
        }
        true
    }

    /// `new` is `old` after a draw over a round with tickets: the winner, if any, is
    /// credited, the pools are settled, and the round is emptied.
    pub open spec fn jackpot_settled(
        old: &LotteryContract,
        new: &LotteryContract,
        height: u64,
        header: BlockHeader,
    ) -> bool {
        &&& *new == (LotteryContract {
            last_jackpot_end_block: height as u128,
            jackpot_lock: 0,
            lp_pool_total: old.jackpot_lp_after(header) as u128,
            lp_fees_total: if old.fees_distributed() {
                0
            } else {
                old.lp_fees_total
            },
            user_pool_total: 0,
            ticket_count_total_bps: 0,
            all_fees_total: 0,
            last_winner_id: match old.jackpot_winner(header) {
                Some(w) => Some(w),
                None => old.last_winner_id,
            },
            round_collectors: new.round_collectors,
            tickets_for_collector: new.tickets_for_collector,
            reward_claimable_for_collector: new.reward_claimable_for_collector,
            ..*old
        })
        &&& new.round_collectors@.len() == 0
        &&& forall|id: AlkaneId|
            #[trigger] new.tickets_for_collector.spec_get(id) == if is_present(id)
                && old.round_collectors@.contains(id) {
                0
            } else {
                old.tickets_for_collector.spec_get(id)
            }
        &&& forall|id: AlkaneId|
            #[trigger] new.reward_claimable_for_collector.spec_get(id) == if old.jackpot_winner(
                header,
            ) == Some(id) {
                old.reward_claimable_for_collector.spec_get(id) + old.jackpot_prize()
            } else {
                old.reward_claimable_for_collector.spec_get(id) as int
            }
    }

    /// What a draw answers and leaves: refused before the round's end or while the lock
    /// is held, with nothing changed; otherwise the incoming alkanes go back, and either
    /// the round had no tickets and only the round's end and the lock move, or the round
    /// is settled.
    pub open spec fn jackpot_post(
        old: &LotteryContract,
        new: &LotteryContract,
        height: u64,
        header: BlockHeader,
        incoming: Seq<AlkaneTransfer>,
        r: &Result<CallResponse, ContractError>,
    ) -> bool {
        match *r {
            Err(e) => {
                let end = old.last_jackpot_end_block + old.round_duration_in_blocks;
                &&& (height < end && e == ContractError::RoundNotOver) || (height >= end
                    && old.jackpot_lock != 0 && e == ContractError::JackpotRunning)
                &&& *new == *old
            },
            Ok(resp) => {
                &&& height >= old.last_jackpot_end_block + old.round_duration_in_blocks
                &&& old.jackpot_lock == 0
                &&& resp.alkanes@ == incoming
                &&& resp.data@ == Seq::<u8>::empty()
                &&& old.ticket_count_total_bps == 0 ==> *new == (LotteryContract {
                    last_jackpot_end_block: height as u128,
                    jackpot_lock: 0,
                    ..*old
                })
                &&& old.ticket_count_total_bps > 0 ==> Self::jackpot_settled(old, new, height, header)
                &&& new.ticket_count_total_bps == 0
                &&& new.jackpot_lock == 0
                &&& old.wf() ==> new.round_collectors@.len() == 0 && new.user_pool_total == 0
                &&& old.wf() ==> new.wf()
                &&& old.round_inv() ==> new.round_inv()
            },
        }
    }

    /// Runs the round's draw once the round is over: with no tickets sold the LPs keep
    /// their pool; otherwise the LPs' fees join their pool, a block-hash draw decides
    /// between players and LPs, the winner's share is credited, and the round starts
    /// afresh.
    pub fn run_jackpot(
        &mut self,
        height: u64,
        header: &BlockHeader,
        incoming: &Vec<AlkaneTransfer>,
    ) -> (r: Result<CallResponse, ContractError>)
        requires
            old(self).jackpot_in_range(height, *header),
        ensures
            Self::jackpot_post(old(self), final(self), height, *header, incoming@, &r),
    {
        let current_height = height as u128;
        let last_jackpot_end = self.last_jackpot_end_block;
        let round_duration = self.round_duration_in_blocks;
        if current_height < last_jackpot_end + round_duration {
            return Err(ContractError::RoundNotOver);
        }
        if self.jackpot_lock != 0 {
            return Err(ContractError::JackpotRunning);
        }
        let ghost start = *self;
        self.jackpot_lock = 1;
        self.last_jackpot_end_block = current_height;
        let ticket_count_total_bps = self.ticket_count_total_bps;
        let lp_pool_total = self.lp_pool_total;
        let user_pool_total = self.user_pool_total;
        let ticket_price = self.ticket_price;
        if ticket_count_total_bps == 0 {
            self.jackpot_lock = 0;
            return Ok(CallResponse::forward(incoming));
        }
        let lp_fees = self.lp_fees_total;
        if lp_pool_total > 0 && lp_fees > 0 {
            self.lp_pool_total = lp_pool_total + lp_fees;
            self.lp_fees_total = 0;
        }
        let new_lp_pool_total = self.lp_pool_total;
        assert(new_lp_pool_total == start.jackpot_lp_pool());
        if user_pool_total >= new_lp_pool_total {
            let winning_ticket = self.get_winning_ticket(ticket_count_total_bps, header);
            if let Ok(winner_collector) = self.find_winner_collector(winning_ticket) {
                let current_claimable = self.reward_claimable_for_collector.get(winner_collector);
                self.reward_claimable_for_collector.set(
                    winner_collector,
                    current_claimable + user_pool_total,
                );
                self.last_winner_id = Some(winner_collector);
            }
            self.lp_pool_total = 0;
        } else {
            let total_tickets = (new_lp_pool_total * 10000) / ticket_price;
            let winning_ticket = self.get_winning_ticket(total_tickets, header);
            if winning_ticket <= ticket_count_total_bps {
                if let Ok(winner_collector) = self.find_winner_collector(winning_ticket) {
                    let current_claimable = self.reward_claimable_for_collector.get(
                        winner_collector,
                    );
                    self.reward_claimable_for_collector.set(
                        winner_collector,
                        current_claimable + lp_pool_total,
                    );
                    self.last_winner_id = Some(winner_collector);
                    self.lp_pool_total = user_pool_total + (new_lp_pool_total - lp_pool_total);
                }
            } else {
                self.lp_pool_total = new_lp_pool_total + user_pool_total;
            }
        }
        self.clear_round_collectors();
        self.user_pool_total = 0;
        self.ticket_count_total_bps = 0;
        self.all_fees_total = 0;
        self.round_collectors = Vec::new();
        self.jackpot_lock = 0;
        Ok(CallResponse::forward(incoming))
    }

    /// Runs the draw where its arithmetic stays in range; `None`, with nothing changed,
    /// where the contract would panic.
    pub fn try_run_jackpot(
        &mut self,
        height: u64,
        header: &BlockHeader,
        incoming: &Vec<AlkaneTransfer>,
    ) -> (r: Option<Result<CallResponse, ContractError>>)
        ensures
            match r {
                None => !old(self).jackpot_in_range(height, *header) && *final(self) == *old(self),
                Some(res) => old(self).jackpot_in_range(height, *header) && Self::jackpot_post(
                    old(self),
                    final(self),
                    height,
                    *header,
                    incoming@,
                    &res,
                ),
            },
    {
        if !self.check_jackpot_in_range(height, header) {
            return None;
        }
        Some(self.run_jackpot(height, header, incoming))
    }
}

} // verus!
