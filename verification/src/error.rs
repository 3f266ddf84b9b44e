use vstd::prelude::*;

verus! {

/// Why a contract call is refused.
#[derive(Debug, Clone, Copy, PartialEq, Eq, Structural)]
pub enum ContractError {
    /// More of a token was asked for than the call brought in.
    InsufficientInput { desired: u128, received: u128 },
    /// A jackpot run holds the lock.
    JackpotRunning,
    /// A deposit brought nothing, or more than it declared.
    InvalidDepositAmount,
    /// A deposit is smaller than one ticket.
    DepositBelowTicketPrice,
    /// A deposit would take the LP pool past its cap.
    DepositExceedsCap,
    /// A share computation does not fit in 128 bits.
    ShareOverflow,
    /// Minting shares would overflow the total supply.
    SupplyOverflow,
    /// A withdrawal brought no shares, or more than it declared.
    InvalidWithdrawAmount,
    /// Fewer shares exist than the withdrawal burns.
    InsufficientShares,
    /// The pool cannot pay the withdrawal.
    InsufficientAssets,
    /// A fee above 8000 basis points.
    FeeTooHigh,
    /// Ticket sales are switched off.
    PurchasingNotAllowed,
    /// A purchase brought none of the lottery token.
    NoTokensReceived,
    /// A purchase does not cover one ticket.
    InsufficientForTicket,
    /// The collector factory is neither at block 2 nor at block 4.
    InvalidFactoryBlock { block: u128 },
    /// The factory answered the mint without any alkane.
    NoCollectorMinted,
    /// The round is not over yet.
    RoundNotOver,
    /// The slot of the round's collector list is empty.
    CollectorNotFound,
    /// The round has no collectors.
    NoCollectors,
    /// A winnings claim came without the collector token.
    CollectorNotPresented,
    /// There are no protocol fees to withdraw.
    NoProtocolFees,
    /// A stored value is missing or too short to decode.
    StorageDecode,
    /// A message names no known opcode or lacks an argument.
    UnknownMessage,
}

} // verus!
