//! The lottery contract's state and its whole-contract operations; the pool, ticket,
//! draw and payout operations live in the submodules.

pub mod draw;
pub mod payout;
pub mod pool;
pub mod tickets;

use vstd::prelude::*;
use vstd::bytes::{spec_u128_to_le_bytes, u128_to_le_bytes};
use crate::error::ContractError;
use crate::id::{
    amount_of, checked_incoming_amount, copy_bytes, incoming_amount, refund_and_check_inputs,
    refund_transfers, starts_with, AlkaneId, AlkaneTransfer, CallResponse,
};
use crate::ledger::IdLedger;

verus! {

/// The calls the lottery contract answers, each under its opcode.
#[derive(Debug, Clone, Copy, PartialEq, Eq, Structural)]
pub enum LotteryContractMessage {
    Initialize { token_id: AlkaneId, ticket_price: u128, collector_factory_id: AlkaneId, enable_purchasing: u128 },
    LpDeposit { amount_desired: u128 },
    MintAndBuy,
    PurchaseTickets { collector_id: AlkaneId },
    RunJackpot,
    WithdrawWinnings { collector_id: AlkaneId },
    WithdrawProtocolFees,
    LpWithdraw { amount_desired: u128 },
    AdminSetTicketPrice { new_price: u128 },
    AdminSetRoundDurationInBlocks { duration: u128 },
    AdminSetFeeBps { bps: u128 },
    AdminSetLpPoolCap { cap: u128 },
    AdminSetProtocolFeeBps { bps: u128 },
    AdminForceReleaseJackpotLock,
    AdminSetLpLimit { limit: u128 },
    AdminSetUserLimit { limit: u128 },
    AdminSetMinLpDeposit { min_deposit: u128 },
    AdminSetAllowPurchasing { allow: u128 },
    Forward,
    GetName,
    GetLpPoolTotal,
    GetUserPoolTotal,
}

impl LotteryContractMessage {
    /// The call's inputs: its opcode, then its arguments (an id as its block, then
    /// its transaction).
    pub open spec fn encoding(self) -> Seq<u128> {
        match self {
            LotteryContractMessage::Initialize { token_id, ticket_price, collector_factory_id, enable_purchasing } => seq![0, token_id.block, token_id.tx, ticket_price, collector_factory_id.block, collector_factory_id.tx, enable_purchasing],
            LotteryContractMessage::LpDeposit { amount_desired } => seq![1, amount_desired],
            LotteryContractMessage::MintAndBuy => seq![2],
            LotteryContractMessage::PurchaseTickets { collector_id } => seq![3, collector_id.block, collector_id.tx],
            LotteryContractMessage::RunJackpot => seq![4],
            LotteryContractMessage::WithdrawWinnings { collector_id } => seq![5, collector_id.block, collector_id.tx],
            LotteryContractMessage::WithdrawProtocolFees => seq![7],
            LotteryContractMessage::LpWithdraw { amount_desired } => seq![8, amount_desired],
            LotteryContractMessage::AdminSetTicketPrice { new_price } => seq![20, new_price],
            LotteryContractMessage::AdminSetRoundDurationInBlocks { duration } => seq![21, duration],
            LotteryContractMessage::AdminSetFeeBps { bps } => seq![23, bps],
            LotteryContractMessage::AdminSetLpPoolCap { cap } => seq![24, cap],
            LotteryContractMessage::AdminSetProtocolFeeBps { bps } => seq![25, bps],
            LotteryContractMessage::AdminForceReleaseJackpotLock => seq![27],
            LotteryContractMessage::AdminSetLpLimit { limit } => seq![29, limit],
            LotteryContractMessage::AdminSetUserLimit { limit } => seq![30, limit],
            LotteryContractMessage::AdminSetMinLpDeposit { min_deposit } => seq![31, min_deposit],
            LotteryContractMessage::AdminSetAllowPurchasing { allow } => seq![32, allow],
            LotteryContractMessage::Forward => seq![50],
            LotteryContractMessage::GetName => seq![99],
            LotteryContractMessage::GetLpPoolTotal => seq![100],
            LotteryContractMessage::GetUserPoolTotal => seq![101],
        }
    }

    /// The call's opcode.
    pub fn opcode(&self) -> (op: u128)
        ensures
            op == self.encoding()[0],
    {
        match self {
            LotteryContractMessage::Initialize { .. } => 0,
            LotteryContractMessage::LpDeposit { .. } => 1,
            LotteryContractMessage::MintAndBuy => 2,
            LotteryContractMessage::PurchaseTickets { .. } => 3,
            LotteryContractMessage::RunJackpot => 4,
            LotteryContractMessage::WithdrawWinnings { .. } => 5,
            LotteryContractMessage::WithdrawProtocolFees => 7,
            LotteryContractMessage::LpWithdraw { .. } => 8,
            LotteryContractMessage::AdminSetTicketPrice { .. } => 20,
            LotteryContractMessage::AdminSetRoundDurationInBlocks { .. } => 21,
            LotteryContractMessage::AdminSetFeeBps { .. } => 23,
            LotteryContractMessage::AdminSetLpPoolCap { .. } => 24,
            LotteryContractMessage::AdminSetProtocolFeeBps { .. } => 25,
            LotteryContractMessage::AdminForceReleaseJackpotLock => 27,
            LotteryContractMessage::AdminSetLpLimit { .. } => 29,
            LotteryContractMessage::AdminSetUserLimit { .. } => 30,
            LotteryContractMessage::AdminSetMinLpDeposit { .. } => 31,
            LotteryContractMessage::AdminSetAllowPurchasing { .. } => 32,
            LotteryContractMessage::Forward => 50,
            LotteryContractMessage::GetName => 99,
            LotteryContractMessage::GetLpPoolTotal => 100,
            LotteryContractMessage::GetUserPoolTotal => 101,
        }
    }

    /// The call the inputs encode; inputs past its arguments are not read. Refused for
    /// an unknown opcode or missing arguments.
    pub fn from_inputs(inputs: &Vec<u128>) -> (r: Result<LotteryContractMessage, ContractError>)
        ensures
            match r {
                Ok(m) => starts_with(inputs@, m.encoding()),
                Err(e) => e == ContractError::UnknownMessage && forall|m: LotteryContractMessage|
                    !starts_with(inputs@, #[trigger] m.encoding()),
            },
    {
        let n = inputs.len();
        if n == 0 {
            return Err(ContractError::UnknownMessage);
        }
        let op = inputs[0];
        let r = if op == 0 && n >= 7 {
            Ok(LotteryContractMessage::Initialize { token_id: AlkaneId { block: inputs[1], tx: inputs[2] }, ticket_price: inputs[3], collector_factory_id: AlkaneId { block: inputs[4], tx: inputs[5] }, enable_purchasing: inputs[6] })
        } else if op == 1 && n >= 2 {
            Ok(LotteryContractMessage::LpDeposit { amount_desired: inputs[1] })
        } else if op == 2 {
            Ok(LotteryContractMessage::MintAndBuy)
        } else if op == 3 && n >= 3 {
            Ok(LotteryContractMessage::PurchaseTickets { collector_id: AlkaneId { block: inputs[1], tx: inputs[2] } })
        } else if op == 4 {
            Ok(LotteryContractMessage::RunJackpot)
        } else if op == 5 && n >= 3 {
            Ok(LotteryContractMessage::WithdrawWinnings { collector_id: AlkaneId { block: inputs[1], tx: inputs[2] } })
        } else if op == 7 {
            Ok(LotteryContractMessage::WithdrawProtocolFees)
        } else if op == 8 && n >= 2 {
            Ok(LotteryContractMessage::LpWithdraw { amount_desired: inputs[1] })
        } else if op == 20 && n >= 2 {
            Ok(LotteryContractMessage::AdminSetTicketPrice { new_price: inputs[1] })
        } else if op == 21 && n >= 2 {
            Ok(LotteryContractMessage::AdminSetRoundDurationInBlocks { duration: inputs[1] })
        } else if op == 23 && n >= 2 {
            Ok(LotteryContractMessage::AdminSetFeeBps { bps: inputs[1] })
        } else if op == 24 && n >= 2 {
            Ok(LotteryContractMessage::AdminSetLpPoolCap { cap: inputs[1] })
        } else if op == 25 && n >= 2 {
            Ok(LotteryContractMessage::AdminSetProtocolFeeBps { bps: inputs[1] })
        } else if op == 27 {
            Ok(LotteryContractMessage::AdminForceReleaseJackpotLock)
        } else if op == 29 && n >= 2 {
            Ok(LotteryContractMessage::AdminSetLpLimit { limit: inputs[1] })
        } else if op == 30 && n >= 2 {
            Ok(LotteryContractMessage::AdminSetUserLimit { limit: inputs[1] })
        } else if op == 31 && n >= 2 {
            Ok(LotteryContractMessage::AdminSetMinLpDeposit { min_deposit: inputs[1] })
        } else if op == 32 && n >= 2 {
            Ok(LotteryContractMessage::AdminSetAllowPurchasing { allow: inputs[1] })
        } else if op == 50 {
            Ok(LotteryContractMessage::Forward)
        } else if op == 99 {
            Ok(LotteryContractMessage::GetName)
        } else if op == 100 {
            Ok(LotteryContractMessage::GetLpPoolTotal)
        } else if op == 101 {
            Ok(LotteryContractMessage::GetUserPoolTotal)
        } else {
            Err(ContractError::UnknownMessage)
        };
        proof {
            match r {
                Ok(m) => {
                    assert(inputs@.subrange(0, m.encoding().len() as int) =~= m.encoding());
                },
                Err(_) => {
                    assert forall|m: LotteryContractMessage| !starts_with(inputs@, #[trigger] m.encoding()) by {
                        if starts_with(inputs@, m.encoding()) {
                            assert(inputs@.subrange(0, m.encoding().len() as int)[0]
                                == m.encoding()[0]);
                        }
                    }
                },
            }
        }
        r
    }
}

/// The lottery contract: liquidity providers stake a pool of the lottery token, players
/// buy tickets into a user pool, and each round a block hash draws whether a player
/// wins the providers' stake or the providers win the user pool.
///
/// The fields are the contract's stored values. `round_collectors` holds the round's
/// collector list by index (its length is the round's number of unique collectors);
/// the two ledgers hold the per-collector mappings; `total_supply` is the supply of the
/// LP share token, which is the contract itself.
#[derive(Debug)]
pub struct LotteryContract {
    pub token: Option<AlkaneId>,
    pub fee_bps: u128,
    pub protocol_fee_bps: u128,
    pub ticket_price: u128,
    pub round_duration_in_blocks: u128,
    pub last_jackpot_end_block: u128,
    pub lp_pool_total: u128,
    pub lp_pool_cap: u128,
    pub user_pool_total: u128,
    pub ticket_count_total_bps: u128,
    pub last_winner_id: Option<AlkaneId>,
    pub jackpot_lock: u128,
    pub all_fees_total: u128,
    pub lp_fees_total: u128,
    pub protocol_fee_claimable: u128,
    pub lp_limit: u128,
    pub min_lp_deposit: u128,
    pub user_limit: u128,
    pub allow_purchasing: u128,
    pub round_collectors: Vec<AlkaneId>,
    pub tickets_for_collector: IdLedger,
    pub collector_factory_id: Option<AlkaneId>,
    pub next_ticket_collector_id: u128,
    pub reward_claimable_for_collector: IdLedger,
    pub total_supply: u128,
}

impl LotteryContract {
    /// The state the contract keeps between calls: fees within the bound the admin
    /// setter enforces, no jackpot lock held, and a round without tickets has neither
    /// collectors nor a user pool.
    pub open spec fn wf(&self) -> bool {
        &&& self.fee_bps <= 8000
        &&& self.jackpot_lock == 0
        &&& self.ticket_count_total_bps == 0 ==> self.round_collectors@.len() == 0
            && self.user_pool_total == 0
    }

    /// The contract as `initialize` leaves it in fresh storage: 15% fee, 0.1% protocol
    /// fee, 144-block rounds, a minimum LP deposit of 100 tickets and an LP pool cap of
    /// 1000 minimum deposits.
    pub fn initialize(
        token_id: AlkaneId,
        ticket_price: u128,
        collector_factory_id: AlkaneId,
        enable_purchasing: u128,
        height: u64,
    ) -> (c: LotteryContract)
        requires
            ticket_price * 100 * 1000 <= u128::MAX,
        ensures
            c.wf(),
            c.round_inv(),
            c.token == Some(token_id),
            c.ticket_price == ticket_price,
            c.collector_factory_id == Some(collector_factory_id),
            c.next_ticket_collector_id == 0,
            c.round_collectors@.len() == 0,
            c.ticket_count_total_bps == 0,
            c.fee_bps == 1500,
            c.protocol_fee_bps == 10,
            c.round_duration_in_blocks == 144,
            c.lp_limit == 100,
            c.user_limit == 1500,
            c.allow_purchasing == enable_purchasing,
            c.last_jackpot_end_block == height,
            c.min_lp_deposit == ticket_price * 100,
            c.lp_pool_cap == ticket_price * 100 * 1000,
            c.lp_pool_total == 0,
            c.user_pool_total == 0,
            c.total_supply == 0,
            c.jackpot_lock == 0,
            c.all_fees_total == 0,
            c.lp_fees_total == 0,
            c.protocol_fee_claimable == 0,
            c.last_winner_id is None,
            forall|id: AlkaneId| c.tickets_for_collector.spec_get(id) == 0,
            forall|id: AlkaneId| c.reward_claimable_for_collector.spec_get(id) == 0,
    {
        let min_lp_deposit = ticket_price * 100;
        LotteryContract {
            token: Some(token_id),
            fee_bps: 1500,
            protocol_fee_bps: 10,
            ticket_price,
            round_duration_in_blocks: 144,
            last_jackpot_end_block: height as u128,
            lp_pool_total: 0,
            lp_pool_cap: min_lp_deposit * 1000,
            user_pool_total: 0,
            ticket_count_total_bps: 0,
            last_winner_id: None,
            jackpot_lock: 0,
            all_fees_total: 0,
            lp_fees_total: 0,
            protocol_fee_claimable: 0,
            lp_limit: 100,
            min_lp_deposit,
            user_limit: 1500,
            allow_purchasing: enable_purchasing,
            round_collectors: Vec::new(),
            tickets_for_collector: IdLedger::new(),
            collector_factory_id: Some(collector_factory_id),
            next_ticket_collector_id: 0,
            reward_claimable_for_collector: IdLedger::new(),
            total_supply: 0,
        }
    }

    /// Whether `initialize` stays in range for `ticket_price`.
    pub fn check_initialize_in_range(ticket_price: u128) -> (r: bool)
        ensures
            r == (ticket_price * 100 * 1000 <= u128::MAX),
    {
        ticket_price <= u128::MAX / 100000
    }

    /// The stored lottery token.
    pub fn token(&self) -> (r: Result<AlkaneId, ContractError>)
        ensures
            match self.token {
                Some(t) => r == Ok::<AlkaneId, ContractError>(t),
                None => r == Err::<AlkaneId, ContractError>(ContractError::StorageDecode),
            },
    {
        match self.token {
            Some(t) => Ok(t),
            None => Err(ContractError::StorageDecode),
        }
    }

    /// The name and symbol of the LP share token.
    pub fn lp_token_name_and_symbol() -> (r: (&'static str, &'static str))
        ensures
            r.0@ == "Lottery LP"@,
            r.1@ == "LTY LP"@,
    {
        ("Lottery LP", "LTY LP")
    }

    /// Keeps `desired_input_amount` of `desired_input_token` and sends the rest back.
    pub fn _refund_and_check_inputs(
        &self,
        incoming: &Vec<AlkaneTransfer>,
        desired_input_token: AlkaneId,
        desired_input_amount: u128,
    ) -> (r: Result<CallResponse, ContractError>)
        requires
            amount_of(incoming@, desired_input_token) <= u128::MAX,
        ensures
            match r {
                Ok(resp) => {
                    &&& desired_input_amount <= amount_of(incoming@, desired_input_token)
                    &&& resp.alkanes@ == refund_transfers(
                        incoming@,
                        desired_input_token,
                        desired_input_amount,
                    )
                    &&& resp.data@ == Seq::<u8>::empty()
                },
                Err(e) => {
                    &&& desired_input_amount > amount_of(incoming@, desired_input_token)
                    &&& e == (ContractError::InsufficientInput {
                        desired: desired_input_amount,
                        received: amount_of(incoming@, desired_input_token) as u128,
                    })
                },
            },
    {
        refund_and_check_inputs(incoming, desired_input_token, desired_input_amount)
    }

    /// The contract's holdings of the lottery token before this call's transfer came in.
    pub fn lottery_assets_before_transfer(
        &self,
        current_assets: u128,
        incoming: &Vec<AlkaneTransfer>,
    ) -> (r: Result<u128, ContractError>)
        requires
            self.token matches Some(t) ==> amount_of(incoming@, t) <= current_assets,
        ensures
            match self.token {
                Some(t) => r == Ok::<u128, ContractError>(
                    (current_assets - amount_of(incoming@, t)) as u128,
                ),
                None => r == Err::<u128, ContractError>(ContractError::StorageDecode),
            },
    {
        let lottery_token = self.token()?;
        let incoming_balance = incoming_amount(incoming, lottery_token);
        Ok(current_assets - incoming_balance)
    }

    /// Whether `lottery_assets_before_transfer` stays in range.
    pub fn check_assets_in_range(&self, current_assets: u128, incoming: &Vec<AlkaneTransfer>) -> (r:
        bool)
        ensures
            r == (self.token matches Some(t) ==> amount_of(incoming@, t) <= current_assets),
    {
        match self.token {
            None => true,
            Some(t) => match checked_incoming_amount(incoming, t) {
                Some(v) => v <= current_assets,
                None => false,
            },
        }
    }

    /// Answers the LP pool as 16 little-endian bytes, sending back what came in.
    pub fn get_lp_pool_total(&self, incoming: &Vec<AlkaneTransfer>) -> (r: CallResponse)
        ensures
            r.alkanes@ == incoming@,
            r.data@ == spec_u128_to_le_bytes(self.lp_pool_total),
    {
        let mut response = CallResponse::forward(incoming);
        response.data = u128_to_le_bytes(self.lp_pool_total);
        response
    }

    /// Answers the user pool as 16 little-endian bytes, sending back what came in.
    pub fn get_user_pool_total(&self, incoming: &Vec<AlkaneTransfer>) -> (r: CallResponse)
        ensures
            r.alkanes@ == incoming@,
            r.data@ == spec_u128_to_le_bytes(self.user_pool_total),
    {
        let mut response = CallResponse::forward(incoming);
        response.data = u128_to_le_bytes(self.user_pool_total);
        response
    }

    /// Sends back what came in.
    pub fn forward(&self, incoming: &Vec<AlkaneTransfer>) -> (r: CallResponse)
        ensures
            r.alkanes@ == incoming@,
            r.data@ == Seq::<u8>::empty(),
    {
        CallResponse::forward(incoming)
    }

    /// Sends back what came in.
    pub fn forward_incoming(&self, incoming: &Vec<AlkaneTransfer>) -> (r: CallResponse)
        ensures
            r.alkanes@ == incoming@,
            r.data@ == Seq::<u8>::empty(),
    {
        CallResponse::forward(incoming)
    }

    /// Answers the LP token's stored name, sending back what came in.
    pub fn get_name(&self, incoming: &Vec<AlkaneTransfer>, name: &Vec<u8>) -> (r: CallResponse)
        ensures
            r.alkanes@ == incoming@,
            r.data@ == name@,
    {
        let mut response = CallResponse::forward(incoming);
        response.data = copy_bytes(name);
        response
    }
}

} // verus!
