//! The LP pool: deposits that mint shares and withdrawals that burn them.

use vstd::prelude::*;
use crate::error::ContractError;
use crate::id::{
    amount_of, checked_incoming_amount, incoming_amount, refund_and_check_inputs,
    refund_transfers, AlkaneId, AlkaneTransfer, CallResponse,
};
use crate::lottery::LotteryContract;
use crate::wide::{mul_div, mul_div_spec};

verus! {

/// `v` rounded down to whole tickets.
pub open spec fn floor_to_price(v: u128, price: u128) -> u128
    recommends
        price > 0,
{
    ((v / price) * price) as u128
}

/// Rounding down to whole tickets never rounds up, and leaves less than a ticket.
pub proof fn lemma_floor_to_price(v: u128, price: u128)
    requires
        price > 0,
    ensures
        (v / price) * price <= v,
        v - (v / price) * price < price,
        floor_to_price(v, price) == (v / price) * price,
{
    assert((v / price) * price <= v && v - (v / price) * price < price) by (nonlinear_arith)
        requires
            price > 0,
    ;
}

/// The LP shares minted for `floored` tokens paid into a pool of `pool` tokens backing
/// `supply` shares: as many shares as tokens into an empty pool, else the proportional
/// number, rounded down; `None` when that does not fit in 128 bits.
pub open spec fn deposit_shares(pool: u128, supply: u128, floored: u128) -> Option<u128> {
    if pool == 0 {
        Some(floored)
    } else {
        mul_div_spec(floored, supply, pool)
    }
}

/// The tokens that burning `shares` of `supply` shares takes out of a pool of `pool`
/// tokens, before rounding down to whole tickets.
pub open spec fn withdraw_amount(pool: u128, supply: u128, shares: u128) -> Option<u128> {
    if supply == 0 {
        Some(0)
    } else {
        mul_div_spec(shares, pool, supply)
    }
}

impl LotteryContract {
    /// The first check that refuses an LP deposit of `amount_desired`, if any.
    pub open spec fn lp_deposit_refusal(
        &self,
        incoming: Seq<AlkaneTransfer>,
        amount_desired: u128,
    ) -> Option<ContractError> {
        if self.jackpot_lock != 0 {
            Some(ContractError::JackpotRunning)
        } else if self.token is None {
            Some(ContractError::StorageDecode)
        } else {
            let received = amount_of(incoming, self.token->0);
            let floored = floor_to_price(amount_desired, self.ticket_price);
            if received == 0 || received > amount_desired {
                Some(ContractError::InvalidDepositAmount)
            } else if floored == 0 {
                Some(ContractError::DepositBelowTicketPrice)
            } else if self.lp_pool_total + floored > self.lp_pool_cap {
                Some(ContractError::DepositExceedsCap)
            } else if deposit_shares(self.lp_pool_total, self.total_supply, floored) is None {
                Some(ContractError::ShareOverflow)
            } else if self.total_supply + deposit_shares(
                self.lp_pool_total,
                self.total_supply,
                floored,
            )->0 > u128::MAX {
                Some(ContractError::SupplyOverflow)
            } else if floored > received {
                Some(ContractError::InsufficientInput { desired: floored, received: received as u128 })
            } else {
                None
            }
        }
    }

    /// The deposit's arithmetic stays in range: the contract panics where a sum
    /// overflows or the ticket price it divides by is zero.
    pub open spec fn lp_deposit_in_range(
        &self,
        incoming: Seq<AlkaneTransfer>,
        amount_desired: u128,
    ) -> bool {
        self.jackpot_lock == 0 && self.token is Some ==> {
            let received = amount_of(incoming, self.token->0);
            &&& received <= u128::MAX
            &&& received != 0 && received <= amount_desired ==> {
                &&& self.ticket_price > 0
                &&& self.lp_pool_total + floor_to_price(amount_desired, self.ticket_price)
                    <= u128::MAX
            }
        }
    }

    /// Whether `lp_deposit` stays in range.
    pub fn check_lp_deposit_in_range(&self, incoming: &Vec<AlkaneTransfer>, amount_desired: u128) -> (r:
        bool)
        ensures
            r == self.lp_deposit_in_range(incoming@, amount_desired),
    {
        if self.jackpot_lock != 0 {
            return true;
        }
        let token = match self.token {
            Some(t) => t,
            None => {
                return true;
            },
        };
        let received = match checked_incoming_amount(incoming, token) {
            Some(v) => v,
            None => {
                return false;
            },
        };
        if received == 0 || received > amount_desired {
            return true;
        }
        let price = self.ticket_price;
        if price == 0 {
            return false;
        }
        proof {
            lemma_floor_to_price(amount_desired, price);
        }
        let floored = (amount_desired / price) * price;
        self.lp_pool_total.checked_add(floored).is_some()
    }

    /// What an LP deposit answers and leaves: the first failing check's refusal with
    /// nothing changed, or the declared whole tickets joining the pool against newly
    /// minted shares, with the rest of what came in sent back.
    pub open spec fn lp_deposit_post(
        old: &LotteryContract,
        new: &LotteryContract,
        myself: AlkaneId,
        incoming: Seq<AlkaneTransfer>,
        amount_desired: u128,
        r: &Result<CallResponse, ContractError>,
    ) -> bool {
        match *r {
            Err(e) => {
                &&& old.lp_deposit_refusal(incoming, amount_desired) == Some(e)
                &&& *new == *old
            },
            Ok(resp) => {
                let token = old.token->0;
                let floored = floor_to_price(amount_desired, old.ticket_price);
                let shares = deposit_shares(
                    old.lp_pool_total,
                    old.total_supply,
                    floored,
                )->0;
                &&& old.lp_deposit_refusal(incoming, amount_desired) is None
                &&& *new == (LotteryContract {
                    lp_pool_total: (old.lp_pool_total + floored) as u128,
                    total_supply: (old.total_supply + shares) as u128,
                    ..*old
                })
                &&& resp.alkanes@ == refund_transfers(incoming, token, floored).push(
                    AlkaneTransfer { id: myself, value: shares },
                )
                &&& resp.data@ == Seq::<u8>::empty()
                &&& old.lp_pool_total > 0 ==> shares * old.lp_pool_total
                    <= floored * old.total_supply
                &&& new.lp_pool_total * old.total_supply
                    >= old.lp_pool_total * new.total_supply
                &&& old.wf() ==> new.wf()
                &&& old.round_inv() ==> new.round_inv()
            },
        }
    }

    /// An LP deposit: the declared amount, rounded down to whole tickets, joins the LP
    /// pool and mints LP shares to the depositor; the rest of the token and every other
    /// alkane go back.
    pub fn lp_deposit(
        &mut self,
        myself: AlkaneId,
        incoming: &Vec<AlkaneTransfer>,
        amount_desired: u128,
    ) -> (r: Result<CallResponse, ContractError>)
        requires
            old(self).lp_deposit_in_range(incoming@, amount_desired),
        ensures
            Self::lp_deposit_post(old(self), final(self), myself, incoming@, amount_desired, &r),
    {
        if self.jackpot_lock != 0 {
            return Err(ContractError::JackpotRunning);
        }
        let lottery_token = self.token()?;
        let actual_received = incoming_amount(incoming, lottery_token);
        if actual_received == 0 || actual_received > amount_desired {
            return Err(ContractError::InvalidDepositAmount);
        }
        let true_amount_desired = if amount_desired == 0 {
            actual_received
        } else {
            amount_desired
        };
        let ticket_price = self.ticket_price;
        proof {
            lemma_floor_to_price(true_amount_desired, ticket_price);
        }
        let floored_value = (true_amount_desired / ticket_price) * ticket_price;
        if floored_value == 0 {
            return Err(ContractError::DepositBelowTicketPrice);
        }
        let lp_pool_total = self.lp_pool_total;
        if lp_pool_total + floored_value > self.lp_pool_cap {
            return Err(ContractError::DepositExceedsCap);
        }
        let total_shares = self.total_supply;
        let current_assets = lp_pool_total;
        let shares: u128 = if current_assets == 0 {
            floored_value
        } else {
            match mul_div(floored_value, total_shares, current_assets) {
                Some(s) => s,
                None => {
                    return Err(ContractError::ShareOverflow);
                },
            }
        };
        let new_supply = match total_shares.checked_add(shares) {
            Some(s) => s,
            None => {
                return Err(ContractError::SupplyOverflow);
            },
        };
        proof {
            if current_assets > 0 {
                assert(shares * current_assets <= floored_value * total_shares) by (nonlinear_arith)
                    requires
                        shares == (floored_value * total_shares) / (current_assets as int),
                        current_assets > 0,
                ;
            }
            assert((current_assets + floored_value) * total_shares >= current_assets * (
            total_shares + shares)) by (nonlinear_arith)
                requires
                    current_assets > 0 ==> shares * current_assets <= floored_value * total_shares,
                    current_assets == 0 ==> shares == floored_value,
            ;
        }
        let mut response = refund_and_check_inputs(incoming, lottery_token, floored_value)?;
        self.lp_pool_total = current_assets + floored_value;
        self.total_supply = new_supply;
        response.pay(AlkaneTransfer { id: myself, value: shares });
        Ok(response)
    }

    /// The tokens burning `shares` pays out: their proportional part of the LP pool,
    /// rounded down to whole tickets.
    pub open spec fn withdraw_out(&self, shares: u128) -> u128 {
        floor_to_price(
            withdraw_amount(self.lp_pool_total, self.total_supply, shares)->0,
            self.ticket_price,
        )
    }

    /// `new` is `old` after an LP withdrawal of `shares`: the shares leave the supply and
    /// what they pay out leaves the LP pool.
    pub open spec fn lp_withdrawn(old: &LotteryContract, new: &LotteryContract, shares: u128) -> bool {
        &&& shares <= old.total_supply
        &&& withdraw_amount(old.lp_pool_total, old.total_supply, shares) is Some
        &&& old.withdraw_out(shares) <= old.lp_pool_total
        &&& *new == (LotteryContract {
            lp_pool_total: (old.lp_pool_total - old.withdraw_out(shares)) as u128,
            total_supply: (old.total_supply - shares) as u128,
            ..*old
        })
    }

    /// The first check that refuses an LP withdrawal of `amount_desired` shares, if any.
    pub open spec fn lp_withdraw_refusal(
        &self,
        myself: AlkaneId,
        incoming: Seq<AlkaneTransfer>,
        amount_desired: u128,
    ) -> Option<ContractError> {
        let shares_in = amount_of(incoming, myself);
        if self.token is None {
            Some(ContractError::StorageDecode)
        } else if shares_in == 0 || shares_in > amount_desired {
            Some(ContractError::InvalidWithdrawAmount)
        } else if self.jackpot_lock != 0 {
            Some(ContractError::JackpotRunning)
        } else if self.total_supply < amount_desired {
            Some(ContractError::InsufficientShares)
        } else if withdraw_amount(self.lp_pool_total, self.total_supply, amount_desired) is None {
            Some(ContractError::ShareOverflow)
        } else if floor_to_price(
            withdraw_amount(self.lp_pool_total, self.total_supply, amount_desired)->0,
            self.ticket_price,
        ) > self.lp_pool_total {
            Some(ContractError::InsufficientAssets)
        } else if amount_desired > shares_in {
            Some(ContractError::InsufficientInput { desired: amount_desired, received: shares_in as u128 })
        } else {
            None
        }
    }

    /// The withdrawal's arithmetic stays in range: the shares that came in sum within
    /// 128 bits, and the ticket price it divides by is not zero.
    pub open spec fn lp_withdraw_in_range(
        &self,
        myself: AlkaneId,
        incoming: Seq<AlkaneTransfer>,
        amount_desired: u128,
    ) -> bool {
        self.token is Some ==> {
            let shares_in = amount_of(incoming, myself);
            &&& shares_in <= u128::MAX
            &&& shares_in != 0 && shares_in <= amount_desired && self.jackpot_lock == 0
                && self.total_supply >= amount_desired ==> self.ticket_price > 0
        }
    }

    /// Whether `lp_withdraw` stays in range.
    pub fn check_lp_withdraw_in_range(
        &self,
        myself: AlkaneId,
        incoming: &Vec<AlkaneTransfer>,
        amount_desired: u128,
    ) -> (r: bool)
        ensures
            r == self.lp_withdraw_in_range(myself, incoming@, amount_desired),
    {
        if self.token.is_none() {
            return true;
        }
        let shares_in = match checked_incoming_amount(incoming, myself) {
            Some(v) => v,
            None => {
                return false;
            },
        };
        if shares_in != 0 && shares_in <= amount_desired && self.jackpot_lock == 0
            && self.total_supply >= amount_desired {
            self.ticket_price > 0
        } else {
            true
        }
    }

    /// What an LP withdrawal answers and leaves: the first failing check's refusal with
    /// nothing changed, or the declared shares burnt against their part of the pool in
    /// whole tickets, with the rest of what came in sent back.
    pub open spec fn lp_withdraw_post(
        old: &LotteryContract,
        new: &LotteryContract,
        myself: AlkaneId,
        incoming: Seq<AlkaneTransfer>,
        amount_desired: u128,
        r: &Result<CallResponse, ContractError>,
    ) -> bool {
        match *r {
            Err(e) => {
                &&& old.lp_withdraw_refusal(myself, incoming, amount_desired) == Some(e)
                &&& *new == *old
            },
            Ok(resp) => {
                let out = old.withdraw_out(amount_desired);
                &&& old.lp_withdraw_refusal(myself, incoming, amount_desired) is None
                &&& Self::lp_withdrawn(old, new, amount_desired)
                &&& resp.alkanes@ == refund_transfers(incoming, myself, amount_desired).push(
                    AlkaneTransfer { id: old.token->0, value: out },
                )
                &&& resp.data@ == Seq::<u8>::empty()
                &&& out * old.total_supply <= amount_desired * old.lp_pool_total
                &&& new.lp_pool_total * old.total_supply
                    >= old.lp_pool_total * new.total_supply
                &&& old.wf() ==> new.wf()
                &&& old.round_inv() ==> new.round_inv()
            },
        }
    }

    /// An LP withdrawal: the declared shares are burnt and their proportional part of
    /// the LP pool, rounded down to whole tickets, is paid out; the rest of the shares
    /// and every other alkane go back.
    pub fn lp_withdraw(
        &mut self,
        myself: AlkaneId,
        incoming: &Vec<AlkaneTransfer>,
        amount_desired: u128,
    ) -> (r: Result<CallResponse, ContractError>)
        requires
            old(self).lp_withdraw_in_range(myself, incoming@, amount_desired),
        ensures
            Self::lp_withdraw_post(old(self), final(self), myself, incoming@, amount_desired, &r),
    {
        let token_id = self.token()?;
        let vault_token = myself;
        let ticket_price = self.ticket_price;
        let incoming_shares = incoming_amount(incoming, vault_token);
        if incoming_shares == 0 || incoming_shares > amount_desired {
            return Err(ContractError::InvalidWithdrawAmount);
        }
        let true_amount_desired = if amount_desired == 0 {
            incoming_shares
        } else {
            amount_desired
        };
        if self.jackpot_lock != 0 {
            return Err(ContractError::JackpotRunning);
        }
        let total_shares = self.total_supply;
        if total_shares < true_amount_desired {
            return Err(ContractError::InsufficientShares);
        }
        let current_assets = self.lp_pool_total;
        let amount_out: u128 = if total_shares == 0 {
            0
        } else {
            match mul_div(true_amount_desired, current_assets, total_shares) {
                Some(a) => a,
                None => {
                    return Err(ContractError::ShareOverflow);
                },
            }
        };
        proof {
            lemma_floor_to_price(amount_out, ticket_price);
        }
        let floored_amount_out = (amount_out / ticket_price) * ticket_price;
        if floored_amount_out > current_assets {
            return Err(ContractError::InsufficientAssets);
        }
        proof {
            assert(floored_amount_out * total_shares <= true_amount_desired * current_assets)
                by (nonlinear_arith)
                requires
                    amount_out == (true_amount_desired * current_assets) / (total_shares as int),
                    total_shares > 0,
                    floored_amount_out <= amount_out,
            ;
            assert((current_assets - floored_amount_out) * total_shares >= current_assets * (
            total_shares - true_amount_desired)) by (nonlinear_arith)
                requires
                    floored_amount_out * total_shares <= true_amount_desired * current_assets,
            ;
        }
        let mut response = refund_and_check_inputs(incoming, vault_token, true_amount_desired)?;
        self.total_supply = total_shares - true_amount_desired;
        self.lp_pool_total = current_assets - floored_amount_out;
        response.pay(AlkaneTransfer { id: token_id, value: floored_amount_out });
        Ok(response)
    }
}

} // verus!
