//! Ticket sales: the fee split, the collector's ticket weight, and minting a collector.

use vstd::prelude::*;
use crate::error::ContractError;
use crate::id::{
    amount_of, checked_incoming_amount, incoming_amount, push_others, without_id, AlkaneId,
    AlkaneTransfer, CallResponse,
};
use crate::lottery::draw::{
    is_present, lemma_cumulative_agree, lemma_cumulative_push, lemma_cumulative_raise,
};
use crate::lottery::pool::lemma_floor_to_price;
use crate::lottery::LotteryContract;

verus! {

/// Where a new ticket collector is minted: the factory's deployment slot (block 5 for a
/// factory at block 2, block 6 for one at block 4) and the collector's number.
#[derive(Debug, Clone, Copy, PartialEq, Eq, Structural)]
pub struct CollectorMint {
    pub target: AlkaneId,
    pub ticket_id: u128,
}

/// The tickets a balance buys.
pub open spec fn ticket_count(balance: u128, price: u128) -> int {
    balance as int / price as int
}

/// The tokens a purchase spends: whole tickets only.
pub open spec fn used_amount(balance: u128, price: u128) -> int {
    ticket_count(balance, price) * price
}

/// The ticket weight a purchase adds, in basis points of a ticket net of the fee.
pub open spec fn tickets_bps(balance: u128, price: u128, fee_bps: u128) -> int {
    ticket_count(balance, price) * (10000 - fee_bps)
}

/// The fee a purchase pays, at `bps` basis points of what it spends, rounded down.
pub open spec fn fee_amount(balance: u128, price: u128, bps: u128) -> int {
    (used_amount(balance, price) * bps) / 10000
}

/// What a purchase sends back: the tokens that buy no whole ticket, if any, then every
/// other alkane as it came.
pub open spec fn purchase_refund(
    incoming: Seq<AlkaneTransfer>,
    token: AlkaneId,
    remainder: u128,
) -> Seq<AlkaneTransfer> {
    let first = if remainder > 0 {
        seq![AlkaneTransfer { id: token, value: remainder }]
    } else {
        Seq::empty()
    };
    first + without_id(incoming, token)
}

/// A purchase for a present collector, at a fee under 100%, keeps the round consistent:
/// a collector new to the round is listed once with its tickets, one already listed
/// gains weight in place, and the round's total grows by the same weight.
proof fn lemma_purchase_keeps_round(
    old: &LotteryContract,
    new: &LotteryContract,
    c: AlkaneId,
    balance: u128,
)
    requires
        LotteryContract::purchase_applied(old, new, c, balance),
        old.purchase_in_range(c, balance),
        ticket_count(balance, old.ticket_price) > 0,
        old.round_inv(),
        is_present(c),
        old.fee_bps < 10000,
    ensures
        new.round_inv(),
{
    let ids = old.round_collectors@;
    let t1 = old.tickets_for_collector;
    let t2 = new.tickets_for_collector;
    let n = ids.len() as int;
    let count = ticket_count(balance, old.ticket_price);
    let bps = tickets_bps(balance, old.ticket_price, old.fee_bps);
    assert(bps > 0) by (nonlinear_arith)
        requires
            count > 0,
            old.fee_bps < 10000,
            bps == count * (10000 - old.fee_bps),
    ;
    let current = t1.spec_get(c);
    if current == 0 {
        assert(!ids.contains(c)) by {
            if ids.contains(c) {
                let i = choose|i: int| 0 <= i < ids.len() && ids[i] == c;
                assert(t1.spec_get(ids[i]) > 0);
            }
        }
        let nids = ids.push(c);
        assert(new.round_collectors@ == nids);
        assert forall|i: int| 0 <= i < n implies t1.spec_get(#[trigger] ids[i]) == t2.spec_get(
            ids[i],
        ) by {
            assert(ids[i] != c);
        }
        lemma_cumulative_agree(ids, t1, t2, n);
        lemma_cumulative_push(ids, c, t2, n);
        assert(nids[n] == c);
        assert forall|i: int| 0 <= i < nids.len() implies is_present(#[trigger] nids[i])
            && t2.spec_get(nids[i]) > 0 by {
            if i < n {
                assert(nids[i] == ids[i]);
                assert(ids[i] != c);
            }
        }
        assert forall|i: int, j: int| 0 <= i < j < nids.len() implies #[trigger] nids[i]
            != #[trigger] nids[j] by {
            assert(nids[i] == ids[i]);
            if j == n {
                assert(!ids.contains(c));
            } else {
                assert(nids[j] == ids[j]);
            }
        }
        assert forall|id: AlkaneId| !nids.contains(id) implies #[trigger] t2.spec_get(id) == 0 by {
            assert(nids[n] == c);
            if ids.contains(id) {
                let i = choose|i: int| 0 <= i < ids.len() && ids[i] == id;
                assert(nids[i] == id);
            }
        }
    } else {
        assert(ids.contains(c));
        let p = choose|i: int| 0 <= i < ids.len() && ids[i] == c;
        assert(new.round_collectors@ == ids);
        lemma_cumulative_raise(ids, t1, t2, p, bps, n);
        assert forall|i: int| 0 <= i < n implies is_present(#[trigger] ids[i]) && t2.spec_get(
            ids[i],
        ) > 0 by {
            if ids[i] != c {
                assert(t1.spec_get(ids[i]) > 0);
            }
        }
        assert forall|id: AlkaneId| !ids.contains(id) implies #[trigger] t2.spec_get(id) == 0 by {
            if id == c {
                assert(ids.contains(c));
            }
        }
    }
}

impl LotteryContract {
    /// The purchase's arithmetic stays in range: the contract panics where a product or
    /// sum overflows, a fee exceeds 100%, the protocol fee exceeds the whole fee, or the
    /// ticket price it divides by is zero.
    pub open spec fn purchase_in_range(&self, collector_id: AlkaneId, balance: u128) -> bool {
        &&& self.ticket_price > 0
        &&& ticket_count(balance, self.ticket_price) > 0 ==> {
            let used = used_amount(balance, self.ticket_price);
            let bps = tickets_bps(balance, self.ticket_price, self.fee_bps);
            let all_fee = fee_amount(balance, self.ticket_price, self.fee_bps);
            let protocol_fee = fee_amount(balance, self.ticket_price, self.protocol_fee_bps);
            &&& self.fee_bps <= 10000
            &&& bps <= u128::MAX
            &&& used * self.fee_bps <= u128::MAX
            &&& used * self.protocol_fee_bps <= u128::MAX
            &&& protocol_fee <= all_fee
            &&& self.all_fees_total + all_fee <= u128::MAX
            &&& self.lp_fees_total + (all_fee - protocol_fee) <= u128::MAX
            &&& self.protocol_fee_claimable + protocol_fee <= u128::MAX
            &&& self.user_pool_total + used <= u128::MAX
            &&& self.tickets_for_collector.spec_get(collector_id) + bps <= u128::MAX
            &&& self.ticket_count_total_bps + bps <= u128::MAX
        }
    }

    /// Whether a purchase of `balance` for `collector_id` stays in range.
    pub fn check_purchase_in_range(&self, collector_id: AlkaneId, balance: u128) -> (r: bool)
        ensures
            r == self.purchase_in_range(collector_id, balance),
    {
        let price = self.ticket_price;
        if price == 0 {
            return false;
        }
        let count = balance / price;
        if count == 0 {
            return true;
        }
        let fee = self.fee_bps;
        if fee > 10000 {
            return false;
        }
        proof {
            lemma_floor_to_price(balance, price);
        }
        let used = count * price;
        let bps = match count.checked_mul(10000 - fee) {
            Some(v) => v,
            None => {
                return false;
            },
        };
        let used_fee = match used.checked_mul(fee) {
            Some(v) => v,
            None => {
                return false;
            },
        };
        let used_protocol = match used.checked_mul(self.protocol_fee_bps) {
            Some(v) => v,
            None => {
                return false;
            },
        };
        let all_fee = used_fee / 10000;
        let protocol_fee = used_protocol / 10000;
        if protocol_fee > all_fee {
            return false;
        }
        self.all_fees_total.checked_add(all_fee).is_some()
            && self.lp_fees_total.checked_add(all_fee - protocol_fee).is_some()
            && self.protocol_fee_claimable.checked_add(protocol_fee).is_some()
            && self.user_pool_total.checked_add(used).is_some()
            && self.tickets_for_collector.get(collector_id).checked_add(bps).is_some()
            && self.ticket_count_total_bps.checked_add(bps).is_some()
    }

    /// `new` is `old` after `collector_id` bought tickets with `balance`: the whole-ticket
    /// amount is split into the fee (the protocol's part and the LPs' part) and the user
    /// pool, the collector's ticket weight and the round's total grow, and a collector
    /// new to the round is appended to the round's list.
    pub open spec fn purchase_applied(
        old: &LotteryContract,
        new: &LotteryContract,
        collector_id: AlkaneId,
        balance: u128,
    ) -> bool {
        let used = used_amount(balance, old.ticket_price);
        let bps = tickets_bps(balance, old.ticket_price, old.fee_bps);
        let all_fee = fee_amount(balance, old.ticket_price, old.fee_bps);
        let protocol_fee = fee_amount(balance, old.ticket_price, old.protocol_fee_bps);
        let current = old.tickets_for_collector.spec_get(collector_id);
        &&& *new == (LotteryContract {
            all_fees_total: (old.all_fees_total + all_fee) as u128,
            lp_fees_total: (old.lp_fees_total + (all_fee - protocol_fee)) as u128,
            protocol_fee_claimable: (old.protocol_fee_claimable + protocol_fee) as u128,
            user_pool_total: (old.user_pool_total + used - all_fee) as u128,
            ticket_count_total_bps: (old.ticket_count_total_bps + bps) as u128,
            round_collectors: new.round_collectors,
            tickets_for_collector: new.tickets_for_collector,
            ..*old
        })
        &&& new.round_collectors@ == if current == 0 {
            old.round_collectors@.push(collector_id)
        } else {
            old.round_collectors@
        }
        &&& new.tickets_for_collector.spec_get(collector_id) == current + bps
        &&& forall|other: AlkaneId|
            other != collector_id ==> new.tickets_for_collector.spec_get(other)
                == old.tickets_for_collector.spec_get(other)
    }

    /// What buying tickets with a balance answers and leaves: refused with nothing
    /// changed when it buys no whole ticket, else the amount spent, split into the fees
    /// and the user pool, with the buyer's ticket weight raised.
    pub open spec fn ticket_purchase_post(
        old: &LotteryContract,
        new: &LotteryContract,
        collector_id: AlkaneId,
        incoming_balance: u128,
        r: &Result<u128, ContractError>,
    ) -> bool {
        match *r {
            Err(e) => {
                &&& ticket_count(incoming_balance, old.ticket_price) == 0
                &&& e == ContractError::InsufficientForTicket
                &&& *new == *old
            },
            Ok(used) => {
                &&& ticket_count(incoming_balance, old.ticket_price) > 0
                &&& used == used_amount(incoming_balance, old.ticket_price)
                &&& used <= incoming_balance
                &&& incoming_balance - used < old.ticket_price
                &&& Self::purchase_applied(old, new, collector_id, incoming_balance)
                &&& used == (new.user_pool_total - old.user_pool_total)
                    + (new.lp_fees_total - old.lp_fees_total)
                    + (new.protocol_fee_claimable - old.protocol_fee_claimable)
                &&& old.wf() ==> new.wf()
            },
        }
    }

    /// Buys tickets for `collector_id` with `incoming_balance` of the lottery token and
    /// answers the amount spent; refused when the balance buys no whole ticket.
    pub fn process_ticket_purchase(&mut self, collector_id: AlkaneId, incoming_balance: u128) -> (r:
        Result<u128, ContractError>)
        requires
            old(self).purchase_in_range(collector_id, incoming_balance),
        ensures
            old(self).round_inv() && is_present(collector_id) && old(self).fee_bps < 10000
                ==> final(self).round_inv(),
            Self::ticket_purchase_post(old(self), final(self), collector_id, incoming_balance, &r),
    {
        let ticket_price = self.ticket_price;
        let fee_bps = self.fee_bps;
        let ticket_count = incoming_balance / ticket_price;
        if ticket_count == 0 {
            return Err(ContractError::InsufficientForTicket);
        }
        proof {
            lemma_floor_to_price(incoming_balance, ticket_price);
            // With a fee of at most 80%, every purchase adds ticket weight.
            assert(fee_bps <= 8000 ==> ticket_count * (10000 - fee_bps) > 0) by (nonlinear_arith)
                requires
                    ticket_count > 0,
            ;
        }
        let used_amount = ticket_count * ticket_price;
        let tickets_purchased_bps = ticket_count * (10000 - fee_bps);
        let all_fee_amount = (used_amount * fee_bps) / 10000;
        let protocol_fee_bps = self.protocol_fee_bps;
        let protocol_fee = (used_amount * protocol_fee_bps) / 10000;
        let lp_fee_amount = all_fee_amount - protocol_fee;
        proof {
            assert(all_fee_amount <= used_amount) by (nonlinear_arith)
                requires
                    all_fee_amount == (used_amount * fee_bps) / 10000,
                    fee_bps <= 10000,
            ;
        }
        self.all_fees_total = self.all_fees_total + all_fee_amount;
        self.lp_fees_total = self.lp_fees_total + lp_fee_amount;
        self.protocol_fee_claimable = self.protocol_fee_claimable + protocol_fee;
        self.user_pool_total = self.user_pool_total + used_amount - all_fee_amount;
        let current_tickets = self.tickets_for_collector.get(collector_id);
        if current_tickets == 0 {
            self.round_collectors.push(collector_id);
        }
        self.tickets_for_collector.set(collector_id, current_tickets + tickets_purchased_bps);
        self.ticket_count_total_bps = self.ticket_count_total_bps + tickets_purchased_bps;
        proof {
            if old(self).round_inv() && is_present(collector_id) && fee_bps < 10000 {
                lemma_purchase_keeps_round(&*old(self), &*self, collector_id, incoming_balance);
            }
        }
        Ok(used_amount)
    }

    /// The first check that refuses a ticket purchase, if any.
    pub open spec fn purchase_refusal(&self, incoming: Seq<AlkaneTransfer>) -> Option<
        ContractError,
    > {
        if self.allow_purchasing == 0 {
            Some(ContractError::PurchasingNotAllowed)
        } else if self.jackpot_lock != 0 {
            Some(ContractError::JackpotRunning)
        } else if self.token is None {
            Some(ContractError::StorageDecode)
        } else if amount_of(incoming, self.token->0) == 0 {
            Some(ContractError::NoTokensReceived)
        } else if ticket_count(amount_of(incoming, self.token->0) as u128, self.ticket_price)
            == 0 {
            Some(ContractError::InsufficientForTicket)
        } else {
            None
        }
    }

    /// The lottery token that came in, when it can be bought with.
    pub open spec fn purchase_balance(&self, incoming: Seq<AlkaneTransfer>) -> u128 {
        amount_of(incoming, self.token->0) as u128
    }

    /// Whether `purchase_tickets` stays in range.
    pub fn check_purchase_tickets_in_range(
        &self,
        collector_id: AlkaneId,
        incoming: &Vec<AlkaneTransfer>,
    ) -> (r: bool)
        ensures
            r == (self.allow_purchasing != 0 && self.jackpot_lock == 0 && self.token is Some ==> {
                &&& amount_of(incoming@, self.token->0) <= u128::MAX
                &&& amount_of(incoming@, self.token->0) > 0 ==> self.purchase_in_range(
                    collector_id,
                    self.purchase_balance(incoming@),
                )
            }),
    {
        if self.allow_purchasing == 0 || self.jackpot_lock != 0 {
            return true;
        }
        let token = match self.token {
            Some(t) => t,
            None => {
                return true;
            },
        };
        match checked_incoming_amount(incoming, token) {
            Some(balance) => balance == 0 || self.check_purchase_in_range(collector_id, balance),
            None => false,
        }
    }

    /// What a ticket purchase with incoming alkanes answers and leaves: the first
    /// failing check's refusal with nothing changed, or the purchase applied and what
    /// buys no whole ticket sent back with every other alkane.
    pub open spec fn purchase_tickets_post(
        old: &LotteryContract,
        new: &LotteryContract,
        collector_id: AlkaneId,
        incoming: Seq<AlkaneTransfer>,
        r: &Result<CallResponse, ContractError>,
    ) -> bool {
        match *r {
            Err(e) => {
                &&& old.purchase_refusal(incoming) == Some(e)
                &&& *new == *old
            },
            Ok(resp) => {
                let balance = old.purchase_balance(incoming);
                let used = used_amount(balance, old.ticket_price);
                &&& old.purchase_refusal(incoming) is None
                &&& Self::purchase_applied(old, new, collector_id, balance)
                &&& resp.alkanes@ == purchase_refund(
                    incoming,
                    old.token->0,
                    (balance - used) as u128,
                )
                &&& resp.data@ == Seq::<u8>::empty()
                &&& old.wf() ==> new.wf()
            },
        }
    }

    /// Buys tickets for an existing collector with the lottery token that came in; sends
    /// back what buys no whole ticket and every other alkane.
    pub fn purchase_tickets(&mut self, collector_id: AlkaneId, incoming: &Vec<AlkaneTransfer>) -> (r:
        Result<CallResponse, ContractError>)
        requires
            old(self).allow_purchasing != 0 && old(self).jackpot_lock == 0 && old(self).token is Some
                ==> {
                &&& amount_of(incoming@, old(self).token->0) <= u128::MAX
                &&& amount_of(incoming@, old(self).token->0) > 0 ==> old(self).purchase_in_range(
                    collector_id,
                    old(self).purchase_balance(incoming@),
                )
            },
        ensures
            old(self).round_inv() && is_present(collector_id) && old(self).fee_bps < 10000
                ==> final(self).round_inv(),
            Self::purchase_tickets_post(old(self), final(self), collector_id, incoming@, &r),
    {
        if self.allow_purchasing == 0 {
            return Err(ContractError::PurchasingNotAllowed);
        }
        if self.jackpot_lock != 0 {
            return Err(ContractError::JackpotRunning);
        }
        let lottery_token = self.token()?;
        let incoming_balance = incoming_amount(incoming, lottery_token);
        if incoming_balance == 0 {
            return Err(ContractError::NoTokensReceived);
        }
        let used_amount = self.process_ticket_purchase(collector_id, incoming_balance)?;
        let remainder = incoming_balance - used_amount;
        let mut response = CallResponse { alkanes: Vec::new(), data: Vec::new() };
        if remainder > 0 {
            response.pay(AlkaneTransfer { id: lottery_token, value: remainder });
        }
        push_others(&mut response.alkanes, incoming, lottery_token);
        assert(response.alkanes@ =~= purchase_refund(incoming@, lottery_token, remainder));
        Ok(response)
    }

    /// The first check that refuses to mint a collector and buy tickets, if any.
    pub open spec fn mint_and_buy_refusal(&self, incoming: Seq<AlkaneTransfer>) -> Option<
        ContractError,
    > {
        if self.allow_purchasing == 0 {
            Some(ContractError::PurchasingNotAllowed)
        } else if self.jackpot_lock != 0 {
            Some(ContractError::JackpotRunning)
        } else if self.token is None {
            Some(ContractError::StorageDecode)
        } else if amount_of(incoming, self.token->0) == 0 {
            Some(ContractError::NoTokensReceived)
        } else if self.collector_factory_id is None {
            Some(ContractError::StorageDecode)
        } else if self.collector_factory_id->0.block != 2 && self.collector_factory_id->0.block
            != 4 {
            Some(ContractError::InvalidFactoryBlock { block: self.collector_factory_id->0.block })
        } else {
            None
        }
    }

    /// Whether `begin_mint_and_buy` stays in range.
    pub fn check_begin_mint_and_buy_in_range(&self, incoming: &Vec<AlkaneTransfer>) -> (r: bool)
        ensures
            r == ((self.allow_purchasing != 0 && self.jackpot_lock == 0 && self.token is Some
                ==> amount_of(incoming@, self.token->0) <= u128::MAX) && (
            self.mint_and_buy_refusal(incoming@) is None ==> self.next_ticket_collector_id
                < u128::MAX)),
    {
        if self.allow_purchasing == 0 || self.jackpot_lock != 0 {
            return true;
        }
        let token = match self.token {
            Some(t) => t,
            None => {
                return true;
            },
        };
        let balance = match checked_incoming_amount(incoming, token) {
            Some(v) => v,
            None => {
                return false;
            },
        };
        if balance == 0 {
            return true;
        }
        match self.collector_factory_id {
            Some(f) => (f.block != 2 && f.block != 4) || self.next_ticket_collector_id < u128::MAX,
            None => true,
        }
    }

    /// The first half of minting a collector and buying tickets for it: checks the
    /// purchase, takes the next collector number, and names the factory slot to call.
    pub fn begin_mint_and_buy(&mut self, incoming: &Vec<AlkaneTransfer>) -> (r: Result<
        CollectorMint,
        ContractError,
    >)
        requires
            old(self).allow_purchasing != 0 && old(self).jackpot_lock == 0 && old(self).token is Some
                ==> amount_of(incoming@, old(self).token->0) <= u128::MAX,
            old(self).mint_and_buy_refusal(incoming@) is None ==> old(self).next_ticket_collector_id
                < u128::MAX,
        ensures
            match r {
                Err(e) => {
                    &&& old(self).mint_and_buy_refusal(incoming@) == Some(e)
                    &&& *final(self) == *old(self)
                },
                Ok(m) => {
                    let factory = old(self).collector_factory_id->0;
                    &&& old(self).mint_and_buy_refusal(incoming@) is None
                    &&& m.ticket_id == old(self).next_ticket_collector_id
                    &&& m.target == (AlkaneId {
                        block: if factory.block == 2 { 5 } else { 6 },
                        tx: factory.tx,
                    })
                    &&& *final(self) == (LotteryContract {
                        next_ticket_collector_id: (old(self).next_ticket_collector_id + 1) as u128,
                        ..*old(self)
                    })
                    &&& old(self).wf() ==> final(self).wf()
                    &&& old(self).round_inv() ==> final(self).round_inv()
                },
            },
    {
        if self.allow_purchasing == 0 {
            return Err(ContractError::PurchasingNotAllowed);
        }
        if self.jackpot_lock != 0 {
            return Err(ContractError::JackpotRunning);
        }
        let lottery_token = self.token()?;
        let incoming_balance = incoming_amount(incoming, lottery_token);
        if incoming_balance == 0 {
            return Err(ContractError::NoTokensReceived);
        }
        let collector_factory_id = match self.collector_factory_id {
            Some(f) => f,
            None => {
                return Err(ContractError::StorageDecode);
            },
        };
        let next_id = self.next_ticket_collector_id;
        let target_block: u128 = if collector_factory_id.block == 2 {
            5
        } else if collector_factory_id.block == 4 {
            6
        } else {
            return Err(ContractError::InvalidFactoryBlock { block: collector_factory_id.block });
        };
        self.next_ticket_collector_id = next_id + 1;
        Ok(CollectorMint { target: AlkaneId { block: target_block, tx: collector_factory_id.tx }, ticket_id: next_id })
    }

    /// Whether `finish_mint_and_buy` stays in range.
    pub fn check_finish_mint_and_buy_in_range(
        &self,
        incoming: &Vec<AlkaneTransfer>,
        minted: &CallResponse,
    ) -> (r: bool)
        ensures
            r == ({
                &&& self.token is Some
                &&& amount_of(incoming@, self.token->0) <= u128::MAX
                &&& minted.alkanes@.len() > 0 ==> self.purchase_in_range(
                    minted.alkanes@[0].id,
                    self.purchase_balance(incoming@),
                )
            }),
    {
        let token = match self.token {
            Some(t) => t,
            None => {
                return false;
            },
        };
        let balance = match checked_incoming_amount(incoming, token) {
            Some(v) => v,
            None => {
                return false;
            },
        };
        if minted.alkanes.len() == 0 {
            return true;
        }
        self.check_purchase_in_range(minted.alkanes[0].id, balance)
    }

    /// The second half of minting a collector and buying tickets: the factory's answer
    /// names the new collector by its first alkane; tickets are bought for it, and the
    /// answer is the factory's, followed by what buys no whole ticket and every other
    /// alkane that came in.
    pub fn finish_mint_and_buy(
        &mut self,
        incoming: &Vec<AlkaneTransfer>,
        minted: CallResponse,
    ) -> (r: Result<CallResponse, ContractError>)
        requires
            old(self).token is Some,
            amount_of(incoming@, old(self).token->0) <= u128::MAX,
            minted.alkanes@.len() > 0 ==> old(self).purchase_in_range(
                minted.alkanes@[0].id,
                old(self).purchase_balance(incoming@),
            ),
        ensures
            minted.alkanes@.len() > 0 && old(self).round_inv() && is_present(minted.alkanes@[0].id)
                && old(self).fee_bps < 10000 ==> final(self).round_inv(),
            match r {
                Err(e) => {
                    &&& (minted.alkanes@.len() == 0 && e == ContractError::NoCollectorMinted)
                        || (minted.alkanes@.len() > 0 && ticket_count(
                        old(self).purchase_balance(incoming@),
                        old(self).ticket_price,
                    ) == 0 && e == ContractError::InsufficientForTicket)
                    &&& *final(self) == *old(self)
                },
                Ok(resp) => {
                    let balance = old(self).purchase_balance(incoming@);
                    let used = used_amount(balance, old(self).ticket_price);
                    &&& minted.alkanes@.len() > 0
                    &&& ticket_count(balance, old(self).ticket_price) > 0
                    &&& Self::purchase_applied(
                        old(self),
                        final(self),
                        minted.alkanes@[0].id,
                        balance,
                    )
                    &&& resp.alkanes@ == minted.alkanes@ + purchase_refund(
                        incoming@,
                        old(self).token->0,
                        (balance - used) as u128,
                    )
                    &&& resp.data@ == minted.data@
                    &&& old(self).wf() ==> final(self).wf()
                },
            },
    {
        let lottery_token = self.token()?;
        let incoming_balance = incoming_amount(incoming, lottery_token);
        if minted.alkanes.len() == 0 {
            return Err(ContractError::NoCollectorMinted);
        }
        let collector_id = minted.alkanes[0].id;
        let used_amount = self.process_ticket_purchase(collector_id, incoming_balance)?;
        let mut response = minted;
        let remainder = incoming_balance - used_amount;
        if remainder > 0 {
            response.pay(AlkaneTransfer { id: lottery_token, value: remainder });
        }
        push_others(&mut response.alkanes, incoming, lottery_token);
        assert(response.alkanes@ =~= minted.alkanes@ + purchase_refund(
            incoming@,
            lottery_token,
            remainder,
        ));
        Ok(response)
    }
}

} // verus!
