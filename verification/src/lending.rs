use vstd::prelude::*;
use crate::error::ContractError;
use crate::id::{copy_bytes, starts_with, 
    amount_of, id_bytes, id_from_bytes, refund_and_check_inputs, refund_transfers, AlkaneId,
    AlkaneTransfer, CallResponse,
};

verus! {

/// The calls the lending contract answers, each under its opcode.
#[derive(Debug, Clone, Copy, PartialEq, Eq, Structural)]
pub enum LotteryContractMessage {
    InitWithLoanAmount { collateral_token: AlkaneId, collateral_amount: u128, loan_token: AlkaneId, loan_amount: u128, repayment_block_deadline: u128, desired_apr: u128 },
    InitWithCollateralAmount { collateral_token: AlkaneId, collateral_amount: u128, loan_token: AlkaneId, loan_amount: u128, repayment_block_deadline: u128, desired_apr: u128 },
    ForwardIncoming,
    GetName,
}

impl LotteryContractMessage {
    /// The call's inputs: its opcode, then its arguments (an id as its block, then
    /// its transaction).
    pub open spec fn encoding(self) -> Seq<u128> {
        match self {
            LotteryContractMessage::InitWithLoanAmount { collateral_token, collateral_amount, loan_token, loan_amount, repayment_block_deadline, desired_apr } => seq![0, collateral_token.block, collateral_token.tx, collateral_amount, loan_token.block, loan_token.tx, loan_amount, repayment_block_deadline, desired_apr],
            LotteryContractMessage::InitWithCollateralAmount { collateral_token, collateral_amount, loan_token, loan_amount, repayment_block_deadline, desired_apr } => seq![1, collateral_token.block, collateral_token.tx, collateral_amount, loan_token.block, loan_token.tx, loan_amount, repayment_block_deadline, desired_apr],
            LotteryContractMessage::ForwardIncoming => seq![50],
            LotteryContractMessage::GetName => seq![99],
        }
    }

    /// The call's opcode.
    pub fn opcode(&self) -> (op: u128)
        ensures
            op == self.encoding()[0],
    {
        match self {
            LotteryContractMessage::InitWithLoanAmount { .. } => 0,
            LotteryContractMessage::InitWithCollateralAmount { .. } => 1,
            LotteryContractMessage::ForwardIncoming => 50,
            LotteryContractMessage::GetName => 99,
        }
    }

    /// The call the inputs encode; inputs past its arguments are not read. Refused for
    /// an unknown opcode or missing arguments.
    pub fn from_inputs(inputs: &Vec<u128>) -> (r: Result<LotteryContractMessage, ContractError>)
        ensures
            match r {
                Ok(m) => starts_with(inputs@, m.encoding()),
                Err(e) => e == ContractError::UnknownMessage && forall|m: LotteryContractMessage|
                    !starts_with(inputs@, #[trigger] m.encoding()),
            },
    {
        let n = inputs.len();
        if n == 0 {
            return Err(ContractError::UnknownMessage);
        }
        let op = inputs[0];
        let r = if op == 0 && n >= 9 {
            Ok(LotteryContractMessage::InitWithLoanAmount { collateral_token: AlkaneId { block: inputs[1], tx: inputs[2] }, collateral_amount: inputs[3], loan_token: AlkaneId { block: inputs[4], tx: inputs[5] }, loan_amount: inputs[6], repayment_block_deadline: inputs[7], desired_apr: inputs[8] })
        } else if op == 1 && n >= 9 {
            Ok(LotteryContractMessage::InitWithCollateralAmount { collateral_token: AlkaneId { block: inputs[1], tx: inputs[2] }, collateral_amount: inputs[3], loan_token: AlkaneId { block: inputs[4], tx: inputs[5] }, loan_amount: inputs[6], repayment_block_deadline: inputs[7], desired_apr: inputs[8] })
        } else if op == 50 {
            Ok(LotteryContractMessage::ForwardIncoming)
        } else if op == 99 {
            Ok(LotteryContractMessage::GetName)
        } else {
            Err(ContractError::UnknownMessage)
        };
        proof {
            match r {
                Ok(m) => {
                    assert(inputs@.subrange(0, m.encoding().len() as int) =~= m.encoding());
                },
                Err(_) => {
                    assert forall|m: LotteryContractMessage| !starts_with(inputs@, #[trigger] m.encoding()) by {
                        if starts_with(inputs@, m.encoding()) {
                            assert(inputs@.subrange(0, m.encoding().len() as int)[0]
                                == m.encoding()[0]);
                        }
                    }
                },
            }
        }
        r
    }
}


/// The lending contract: it records the collateral token a loan is opened with and
/// keeps the loan token (or the collateral) that the opening call brings in.
///
/// `collateral_token_bytes` is the stored value under the collateral-token key (empty
/// until a loan is opened).
#[derive(Debug)]
pub struct LotteryContract {
    pub collateral_token_bytes: Vec<u8>,
}

impl LotteryContract {
    /// A contract whose storage holds nothing yet.
    pub fn new() -> (c: LotteryContract)
        ensures
            c.collateral_token_bytes@ == Seq::<u8>::empty(),
    {
        LotteryContract { collateral_token_bytes: Vec::new() }
    }

    /// The storage key of the collateral token.
    pub fn collateral_token_pointer(&self) -> (key: &'static str)
        ensures
            key@ == "/collateral_token"@,
    {
        "/collateral_token"
    }

    /// The collateral token, read back from storage; refused while nothing (or too
    /// little) is stored.
    pub fn collateral_token(&self) -> (r: Result<AlkaneId, ContractError>)
        ensures
            match r {
                Ok(id) => id_from_bytes(self.collateral_token_bytes@) == Some(id),
                Err(e) => id_from_bytes(self.collateral_token_bytes@) is None && e
                    == ContractError::StorageDecode,
            },
    {
        AlkaneId::from_bytes(&self.collateral_token_bytes)
    }

    /// Stores the collateral token.
    pub fn set_collateral_token(&mut self, collateral_token_id: AlkaneId)
        ensures
            final(self).collateral_token_bytes@ == id_bytes(collateral_token_id),
    {
        self.collateral_token_bytes = collateral_token_id.to_bytes();
    }

    /// Records the loan's terms; of them only the collateral token is kept.
    pub fn _init_state(
        &mut self,
        collateral_token: AlkaneId,
        collateral_amount: u128,
        loan_token: AlkaneId,
        loan_amount: u128,
        repayment_block_deadline: u128,
        desired_apr: u128,
    )
        ensures
            final(self).collateral_token_bytes@ == id_bytes(collateral_token),
    {
        self.set_collateral_token(collateral_token);
    }

    /// Keeps `desired_input_amount` of `desired_input_token` and sends the rest back.
    pub fn _refund_and_check_inputs(
        &self,
        incoming: &Vec<AlkaneTransfer>,
        desired_input_token: AlkaneId,
        desired_input_amount: u128,
    ) -> (r: Result<CallResponse, ContractError>)
        requires
            amount_of(incoming@, desired_input_token) <= u128::MAX,
        ensures
            match r {
                Ok(resp) => {
                    &&& desired_input_amount <= amount_of(incoming@, desired_input_token)
                    &&& resp.alkanes@ == refund_transfers(
                        incoming@,
                        desired_input_token,
                        desired_input_amount,
                    )
                    &&& resp.data@ == Seq::<u8>::empty()
                },
                Err(e) => {
                    &&& desired_input_amount > amount_of(incoming@, desired_input_token)
                    &&& e == (ContractError::InsufficientInput {
                        desired: desired_input_amount,
                        received: amount_of(incoming@, desired_input_token) as u128,
                    })
                },
            },
    {
        refund_and_check_inputs(incoming, desired_input_token, desired_input_amount)
    }

    /// Opens a loan by its loan amount: records the collateral token and keeps
    /// `loan_amount` of the loan token; refused when less of it came in.
    pub fn init_with_loan_amount(
        &mut self,
        collateral_token: AlkaneId,
        collateral_amount: u128,
        loan_token: AlkaneId,
        loan_amount: u128,
        repayment_block_deadline: u128,
        desired_apr: u128,
        incoming: &Vec<AlkaneTransfer>,
    ) -> (r: Result<CallResponse, ContractError>)
        requires
            amount_of(incoming@, loan_token) <= u128::MAX,
        ensures
            match r {
                Ok(resp) => {
                    &&& loan_amount <= amount_of(incoming@, loan_token)
                    &&& resp.alkanes@ == refund_transfers(incoming@, loan_token, loan_amount)
                    &&& resp.data@ == Seq::<u8>::empty()
                    &&& final(self).collateral_token_bytes@ == id_bytes(collateral_token)
                },
                Err(e) => {
                    &&& loan_amount > amount_of(incoming@, loan_token)
                    &&& e == (ContractError::InsufficientInput {
                        desired: loan_amount,
                        received: amount_of(incoming@, loan_token) as u128,
                    })
                    &&& final(self).collateral_token_bytes@ == old(self).collateral_token_bytes@
                },
            },
    {
        let response = self._refund_and_check_inputs(incoming, loan_token, loan_amount)?;
        self._init_state(
            collateral_token,
            collateral_amount,
            loan_token,
            loan_amount,
            repayment_block_deadline,
            desired_apr,
        );
        Ok(response)
    }

    /// Opens a loan by its collateral: records the collateral token and keeps
    /// `collateral_amount` of it; refused when less of it came in.
    pub fn init_with_collateral_amount(
        &mut self,
        collateral_token: AlkaneId,
        collateral_amount: u128,
        loan_token: AlkaneId,
        loan_amount: u128,
        repayment_block_deadline: u128,
        desired_apr: u128,
        incoming: &Vec<AlkaneTransfer>,
    ) -> (r: Result<CallResponse, ContractError>)
        requires
            amount_of(incoming@, collateral_token) <= u128::MAX,
        ensures
            match r {
                Ok(resp) => {
                    &&& collateral_amount <= amount_of(incoming@, collateral_token)
                    &&& resp.alkanes@ == refund_transfers(
                        incoming@,
                        collateral_token,
                        collateral_amount,
                    )
                    &&& resp.data@ == Seq::<u8>::empty()
                    &&& final(self).collateral_token_bytes@ == id_bytes(collateral_token)
                },
                Err(e) => {
                    &&& collateral_amount > amount_of(incoming@, collateral_token)
                    &&& e == (ContractError::InsufficientInput {
                        desired: collateral_amount,
                        received: amount_of(incoming@, collateral_token) as u128,
                    })
                    &&& final(self).collateral_token_bytes@ == old(self).collateral_token_bytes@
                },
            },
    {
        let response = self._refund_and_check_inputs(
            incoming,
            collateral_token,
            collateral_amount,
        )?;
        self._init_state(
            collateral_token,
            collateral_amount,
            loan_token,
            loan_amount,
            repayment_block_deadline,
            desired_apr,
        );
        Ok(response)
    }

    /// Sends back what came in.
    pub fn forward_incoming(&self, incoming: &Vec<AlkaneTransfer>) -> (r: CallResponse)
        ensures
            r.alkanes@ == incoming@,
            r.data@ == Seq::<u8>::empty(),
    {
        CallResponse::forward(incoming)
    }

    /// Answers the token's stored name, sending back what came in.
    pub fn get_name(&self, incoming: &Vec<AlkaneTransfer>, name: &Vec<u8>) -> (r: CallResponse)
        ensures
            r.alkanes@ == incoming@,
            r.data@ == name@,
    {
        let mut response = CallResponse::forward(incoming);
        response.data = copy_bytes(name);
        response
    }

    /// Answers the token's stored symbol, sending back what came in.
    pub fn get_symbol(&self, incoming: &Vec<AlkaneTransfer>, symbol: &Vec<u8>) -> (r: CallResponse)
        ensures
            r.alkanes@ == incoming@,
            r.data@ == symbol@,
    {
        let mut response = CallResponse::forward(incoming);
        response.data = copy_bytes(symbol);
        response
    }
}

} // verus!
