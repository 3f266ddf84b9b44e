use vstd::prelude::*;
use vstd::string::StringSliceAdditionalSpecFns;
use vstd::slice::slice_to_vec;
use crate::error::ContractError;
use crate::id::{copy_bytes, starts_with, AlkaneId, AlkaneTransfer, CallResponse};

verus! {

/// The decimal digits of `n` as ASCII bytes, most significant first, without leading
/// zeros.
pub open spec fn decimal_bytes(n: nat) -> Seq<u8>
    decreases n,
{
    if n < 10 {
        seq![(48 + n) as u8]
    } else {
        decimal_bytes(n / 10).push((48 + n % 10) as u8)
    }
}

/// Appends the decimal digits of `n` to `out`.
pub fn push_decimal(out: &mut Vec<u8>, n: u128)
    ensures
        final(out)@ == old(out)@ + decimal_bytes(n as nat),
    decreases n,
{
    if n >= 10 {
        push_decimal(out, n / 10);
    }
    let digit = (n % 10) as u8;
    out.push(48 + digit);
    assert(out@ =~= old(out)@ + decimal_bytes(n as nat));
}

/// The calls a ticket collector answers, each under its opcode.
#[derive(Debug, Clone, Copy, PartialEq, Eq, Structural)]
pub enum LotteryTicketMessage {
    Initialize { ticket_id: u128 },
    Forward,
    GetName,
    GetSymbol,
}

impl LotteryTicketMessage {
    /// The call's inputs: its opcode, then its arguments.
    pub open spec fn encoding(self) -> Seq<u128> {
        match self {
            LotteryTicketMessage::Initialize { ticket_id } => seq![0, ticket_id],
            LotteryTicketMessage::Forward => seq![50],
            LotteryTicketMessage::GetName => seq![99],
            LotteryTicketMessage::GetSymbol => seq![100],
        }
    }

    /// The call's opcode.
    pub fn opcode(&self) -> (op: u128)
        ensures
            op == self.encoding()[0],
    {
        match self {
            LotteryTicketMessage::Initialize { .. } => 0,
            LotteryTicketMessage::Forward => 50,
            LotteryTicketMessage::GetName => 99,
            LotteryTicketMessage::GetSymbol => 100,
        }
    }

    /// The call the inputs encode; inputs past its arguments are not read. Refused for
    /// an unknown opcode or missing arguments.
    pub fn from_inputs(inputs: &Vec<u128>) -> (r: Result<LotteryTicketMessage, ContractError>)
        ensures
            match r {
                Ok(m) => starts_with(inputs@, m.encoding()),
                Err(e) => e == ContractError::UnknownMessage && forall|m: LotteryTicketMessage|
                    !starts_with(inputs@, #[trigger] m.encoding()),
            },
    {
        let n = inputs.len();
        if n == 0 {
            return Err(ContractError::UnknownMessage);
        }
        let op = inputs[0];
        let r = if op == 0 && n >= 2 {
            Ok(LotteryTicketMessage::Initialize { ticket_id: inputs[1] })
        } else if op == 50 {
            Ok(LotteryTicketMessage::Forward)
        } else if op == 99 {
            Ok(LotteryTicketMessage::GetName)
        } else if op == 100 {
            Ok(LotteryTicketMessage::GetSymbol)
        } else {
            Err(ContractError::UnknownMessage)
        };
        proof {
            match r {
                Ok(m) => {
                    assert(inputs@.subrange(0, m.encoding().len() as int) =~= m.encoding());
                },
                Err(_) => {
                    assert forall|m: LotteryTicketMessage|
                        !starts_with(inputs@, #[trigger] m.encoding()) by {
                        if starts_with(inputs@, m.encoding()) {
                            assert(inputs@.subrange(0, m.encoding().len() as int)[0]
                                == m.encoding()[0]);
                        }
                    }
                },
            }
        }
        r
    }
}

/// A ticket collector: a single-unit token minted by the lottery's collector factory,
/// which holds a player's tickets and claims their winnings.
///
/// The fields are the token's stored name, symbol and total supply.
#[derive(Debug)]
pub struct LotteryTicket {
    pub name: Vec<u8>,
    pub symbol: Vec<u8>,
    pub total_supply: u128,
}

/// The name of collector number `ticket_id`.
pub open spec fn collector_name(ticket_id: u128) -> Seq<u8> {
    "Lottery Ticket Collector".spec_bytes() + decimal_bytes(ticket_id as nat)
}

/// The symbol of collector number `ticket_id`.
pub open spec fn collector_symbol(ticket_id: u128) -> Seq<u8> {
    "LTC".spec_bytes() + decimal_bytes(ticket_id as nat)
}

impl LotteryTicket {
    /// A collector whose storage holds nothing yet.
    pub fn new() -> (t: LotteryTicket)
        ensures
            t.name@ == Seq::<u8>::empty(),
            t.symbol@ == Seq::<u8>::empty(),
            t.total_supply == 0,
    {
        LotteryTicket { name: Vec::new(), symbol: Vec::new(), total_supply: 0 }
    }

    /// Names collector number `ticket_id` and mints its single unit to the caller,
    /// sending back what came in with it.
    pub fn initialize(
        &mut self,
        ticket_id: u128,
        myself: AlkaneId,
        incoming: &Vec<AlkaneTransfer>,
    ) -> (r: Result<CallResponse, ContractError>)
        ensures
            match r {
                Err(e) => {
                    &&& old(self).total_supply == u128::MAX
                    &&& e == ContractError::SupplyOverflow
                    &&& *final(self) == *old(self)
                },
                Ok(resp) => {
                    &&& old(self).total_supply < u128::MAX
                    &&& final(self).name@ == collector_name(ticket_id)
                    &&& final(self).symbol@ == collector_symbol(ticket_id)
                    &&& final(self).total_supply == old(self).total_supply + 1
                    &&& resp.alkanes@ == incoming@.push(AlkaneTransfer { id: myself, value: 1 })
                    &&& resp.data@ == Seq::<u8>::empty()
                },
            },
    {
        if self.total_supply == u128::MAX {
            return Err(ContractError::SupplyOverflow);
        }
        let mut name = slice_to_vec("Lottery Ticket Collector".as_bytes());
        push_decimal(&mut name, ticket_id);
        let mut symbol = slice_to_vec("LTC".as_bytes());
        push_decimal(&mut symbol, ticket_id);
        self.name = name;
        self.symbol = symbol;
        let mut response = CallResponse::forward(incoming);
        self.total_supply = self.total_supply + 1;
        response.pay(AlkaneTransfer { id: myself, value: 1 });
        Ok(response)
    }

    /// Sends back what came in.
    pub fn forward(&self, incoming: &Vec<AlkaneTransfer>) -> (r: CallResponse)
        ensures
            r.alkanes@ == incoming@,
            r.data@ == Seq::<u8>::empty(),
    {
        CallResponse::forward(incoming)
    }

    /// Answers the collector's name, sending back what came in.
    pub fn get_name(&self, incoming: &Vec<AlkaneTransfer>) -> (r: CallResponse)
        ensures
            r.alkanes@ == incoming@,
            r.data@ == self.name@,
    {
        let mut response = CallResponse::forward(incoming);
        response.data = copy_bytes(&self.name);
        response
    }

    /// Answers the collector's symbol, sending back what came in.
    pub fn get_symbol(&self, incoming: &Vec<AlkaneTransfer>) -> (r: CallResponse)
        ensures
            r.alkanes@ == incoming@,
            r.data@ == self.symbol@,
    {
        let mut response = CallResponse::forward(incoming);
        response.data = copy_bytes(&self.symbol);
        response
    }
}

} // verus!
