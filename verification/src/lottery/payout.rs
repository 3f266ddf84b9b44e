//! Payouts of winnings and protocol fees, and the owner's settings.

use vstd::prelude::*;
use crate::error::ContractError;
use crate::id::{amount_of, incoming_amount, AlkaneId, AlkaneTransfer, CallResponse};
use crate::lottery::LotteryContract;

verus! {

impl LotteryContract {
    /// What a winnings claim answers and leaves: refused without the token setting or
    /// without the collector token, with nothing changed; otherwise everything that came
    /// in goes back, and a collector with winnings is paid them once, its credit cleared.
    pub open spec fn winnings_withdrawn(
        old: &LotteryContract,
        new: &LotteryContract,
        collector_id: AlkaneId,
        incoming: Seq<AlkaneTransfer>,
        r: &Result<CallResponse, ContractError>,
    ) -> bool {
        match *r {
            Err(e) => {
                &&& (old.token is None && e == ContractError::StorageDecode) || (
                old.token is Some && amount_of(incoming, collector_id) == 0 && e
                    == ContractError::CollectorNotPresented)
                &&& *new == *old
            },
            Ok(resp) => {
                let claimable = old.reward_claimable_for_collector.spec_get(collector_id);
                &&& old.token is Some
                &&& amount_of(incoming, collector_id) > 0
                &&& resp.data@ == Seq::<u8>::empty()
                &&& claimable == 0 ==> resp.alkanes@ == incoming && *new == *old
                &&& claimable > 0 ==> {
                    &&& resp.alkanes@ == incoming.push(
                        AlkaneTransfer { id: old.token->0, value: claimable },
                    )
                    &&& *new == (LotteryContract {
                        reward_claimable_for_collector: new.reward_claimable_for_collector,
                        ..*old
                    })
                    &&& new.reward_claimable_for_collector.spec_get(collector_id) == 0
                    &&& forall|other: AlkaneId|
                        other != collector_id
                            ==> new.reward_claimable_for_collector.spec_get(other)
                            == old.reward_claimable_for_collector.spec_get(other)
                }
                &&& old.wf() ==> new.wf()
                &&& old.round_inv() ==> new.round_inv()
            },
        }
    }

    /// Pays a collector's credited winnings to whoever presents the collector token;
    /// the token and everything else that came in go back.
    pub fn withdraw_winnings(&mut self, collector_id: AlkaneId, incoming: &Vec<AlkaneTransfer>) -> (r:
        Result<CallResponse, ContractError>)
        requires
            amount_of(incoming@, collector_id) <= u128::MAX,
        ensures
            Self::winnings_withdrawn(old(self), final(self), collector_id, incoming@, &r),
    {
        let lottery_token = self.token()?;
        let collector_balance = incoming_amount(incoming, collector_id);
        if collector_balance == 0 {
            return Err(ContractError::CollectorNotPresented);
        }
        let claimable = self.reward_claimable_for_collector.get(collector_id);
        if claimable == 0 {
            return Ok(CallResponse::forward(incoming));
        }
        self.reward_claimable_for_collector.set(collector_id, 0);
        let mut response = CallResponse::forward(incoming);
        response.pay(AlkaneTransfer { id: lottery_token, value: claimable });
        Ok(response)
    }

    /// Pays out the accrued protocol fees (the caller is the owner).
    pub fn withdraw_protocol_fees(&mut self, incoming: &Vec<AlkaneTransfer>) -> (r: Result<
        CallResponse,
        ContractError,
    >)
        ensures
            match r {
                Err(e) => {
                    &&& (old(self).protocol_fee_claimable == 0 && e == ContractError::NoProtocolFees)
                        || (old(self).protocol_fee_claimable > 0 && old(self).token is None && e
                        == ContractError::StorageDecode)
                    &&& *final(self) == *old(self)
                },
                Ok(resp) => {
                    &&& old(self).protocol_fee_claimable > 0
                    &&& old(self).token is Some
                    &&& resp.alkanes@ == incoming@.push(
                        AlkaneTransfer {
                            id: old(self).token->0,
                            value: old(self).protocol_fee_claimable,
                        },
                    )
                    &&& resp.data@ == Seq::<u8>::empty()
                    &&& *final(self) == (LotteryContract { protocol_fee_claimable: 0, ..*old(self) })
                    &&& old(self).wf() ==> final(self).wf()
                    &&& old(self).round_inv() ==> final(self).round_inv()
                },
            },
    {
        let protocol_fee_claimable = self.protocol_fee_claimable;
        if protocol_fee_claimable == 0 {
            return Err(ContractError::NoProtocolFees);
        }
        let lottery_token = self.token()?;
        self.protocol_fee_claimable = 0;
        let mut response = CallResponse::forward(incoming);
        response.pay(AlkaneTransfer { id: lottery_token, value: protocol_fee_claimable });
        Ok(response)
    }

    /// Sets the ticket price (the caller is the owner).
    pub fn admin_set_ticket_price(&mut self, new_price: u128, incoming: &Vec<AlkaneTransfer>) -> (r:
        CallResponse)
        ensures
            *final(self) == (LotteryContract { ticket_price: new_price, ..*old(self) }),
            r.alkanes@ == incoming@,
            old(self).wf() ==> final(self).wf(),
            old(self).round_inv() ==> final(self).round_inv(),
            r.data@ == Seq::<u8>::empty(),
    {
        self.ticket_price = new_price;
        CallResponse::forward(incoming)
    }

    /// Sets the round length in blocks (the caller is the owner).
    pub fn admin_set_round_duration_in_blocks(
        &mut self,
        duration: u128,
        incoming: &Vec<AlkaneTransfer>,
    ) -> (r: CallResponse)
        ensures
            *final(self) == (LotteryContract { round_duration_in_blocks: duration, ..*old(self) }),
            r.alkanes@ == incoming@,
            old(self).wf() ==> final(self).wf(),
            old(self).round_inv() ==> final(self).round_inv(),
            r.data@ == Seq::<u8>::empty(),
    {
        self.round_duration_in_blocks = duration;
        CallResponse::forward(incoming)
    }

    /// Sets the fee (the caller is the owner); refused above 8000 basis points.
    pub fn admin_set_fee_bps(&mut self, bps: u128, incoming: &Vec<AlkaneTransfer>) -> (r: Result<
        CallResponse,
        ContractError,
    >)
        ensures
            match r {
                Err(e) => bps > 8000 && e == ContractError::FeeTooHigh && *final(self) == *old(
                    self,
                ),
                Ok(resp) => {
                    &&& bps <= 8000
                    &&& *final(self) == (LotteryContract { fee_bps: bps, ..*old(self) })
                    &&& resp.alkanes@ == incoming@
                    &&& resp.data@ == Seq::<u8>::empty()
                },
            },
            old(self).wf() ==> final(self).wf(),
            old(self).round_inv() ==> final(self).round_inv(),
    {
        if bps > 8000 {
            return Err(ContractError::FeeTooHigh);
        }
        self.fee_bps = bps;
        Ok(CallResponse::forward(incoming))
    }

    /// Sets the protocol's part of the fee (the caller is the owner).
    pub fn admin_set_protocol_fee_bps(&mut self, bps: u128, incoming: &Vec<AlkaneTransfer>) -> (r:
        CallResponse)
        ensures
            *final(self) == (LotteryContract { protocol_fee_bps: bps, ..*old(self) }),
            r.alkanes@ == incoming@,
            old(self).wf() ==> final(self).wf(),
            old(self).round_inv() ==> final(self).round_inv(),
            r.data@ == Seq::<u8>::empty(),
    {
        self.protocol_fee_bps = bps;
        CallResponse::forward(incoming)
    }

    /// Sets the LP pool cap (the caller is the owner).
    pub fn admin_set_lp_pool_cap(&mut self, cap: u128, incoming: &Vec<AlkaneTransfer>) -> (r:
        CallResponse)
        ensures
            *final(self) == (LotteryContract { lp_pool_cap: cap, ..*old(self) }),
            r.alkanes@ == incoming@,
            old(self).wf() ==> final(self).wf(),
            old(self).round_inv() ==> final(self).round_inv(),
            r.data@ == Seq::<u8>::empty(),
    {
        self.lp_pool_cap = cap;
        CallResponse::forward(incoming)
    }

    /// Releases the jackpot lock (the caller is the owner).
    pub fn admin_force_release_jackpot_lock(&mut self, incoming: &Vec<AlkaneTransfer>) -> (r:
        CallResponse)
        ensures
            *final(self) == (LotteryContract { jackpot_lock: 0, ..*old(self) }),
            r.alkanes@ == incoming@,
            old(self).wf() ==> final(self).wf(),
            old(self).round_inv() ==> final(self).round_inv(),
            r.data@ == Seq::<u8>::empty(),
    {
        self.jackpot_lock = 0;
        CallResponse::forward(incoming)
    }

    /// Sets the LP limit (the caller is the owner).
    pub fn admin_set_lp_limit(&mut self, limit: u128, incoming: &Vec<AlkaneTransfer>) -> (r:
        CallResponse)
        ensures
            *final(self) == (LotteryContract { lp_limit: limit, ..*old(self) }),
            r.alkanes@ == incoming@,
            old(self).wf() ==> final(self).wf(),
            old(self).round_inv() ==> final(self).round_inv(),
            r.data@ == Seq::<u8>::empty(),
    {
        self.lp_limit = limit;
        CallResponse::forward(incoming)
    }

    /// Sets the user limit (the caller is the owner).
    pub fn admin_set_user_limit(&mut self, limit: u128, incoming: &Vec<AlkaneTransfer>) -> (r:
        CallResponse)
        ensures
            *final(self) == (LotteryContract { user_limit: limit, ..*old(self) }),
            r.alkanes@ == incoming@,
            old(self).wf() ==> final(self).wf(),
            old(self).round_inv() ==> final(self).round_inv(),
            r.data@ == Seq::<u8>::empty(),
    {
        self.user_limit = limit;
        CallResponse::forward(incoming)
    }

    /// Sets the minimum LP deposit (the caller is the owner).
    pub fn admin_set_min_lp_deposit(&mut self, min_deposit: u128, incoming: &Vec<AlkaneTransfer>) -> (r:
        CallResponse)
        ensures
            *final(self) == (LotteryContract { min_lp_deposit: min_deposit, ..*old(self) }),
            r.alkanes@ == incoming@,
            old(self).wf() ==> final(self).wf(),
            old(self).round_inv() ==> final(self).round_inv(),
            r.data@ == Seq::<u8>::empty(),
    {
        self.min_lp_deposit = min_deposit;
        CallResponse::forward(incoming)
    }

    /// Switches ticket sales on (non-zero) or off (zero) (the caller is the owner).
    pub fn admin_set_allow_purchasing(&mut self, allow: u128, incoming: &Vec<AlkaneTransfer>) -> (r:
        CallResponse)
        ensures
            *final(self) == (LotteryContract { allow_purchasing: allow, ..*old(self) }),
            r.alkanes@ == incoming@,
            old(self).wf() ==> final(self).wf(),
            old(self).round_inv() ==> final(self).round_inv(),
            r.data@ == Seq::<u8>::empty(),
    {
        self.allow_purchasing = allow;
        CallResponse::forward(incoming)
    }
}

} // verus!
