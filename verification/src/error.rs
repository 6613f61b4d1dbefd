//! Why a call was refused.

use vstd::prelude::*;

verus! {

/// The reason a call failed. A failed call leaves the raffle as it was.
#[derive(Clone, Copy, Debug, PartialEq, Eq, Structural)]
pub enum RaffleError {
    /// An admin-only call came from someone else.
    Unauthorized,
    /// The raffle has already been started.
    AlreadyStarted,
    /// The raffle has no configuration yet.
    NotConfigured,
    /// A ticket price of zero was offered.
    ZeroPrice,
    /// Ticket sales have not been opened.
    NotStarted,
    /// Ticket sales are over.
    RaffleEnded,
    /// The admin tried to buy tickets.
    AdminCannotBuy,
    /// No payment in the raffle's currency came with the call.
    NoFundsSent,
    /// The payment is not a whole number of tickets.
    NotAMultipleOfPrice,
    /// A ticket counter would leave its range.
    Overflow,
    /// The end time has not been reached.
    NotYetEnded,
    /// The draw has already been made.
    AlreadySelected,
    /// The host offered no random value.
    RandomnessUnavailable,
    /// The draw has not been made.
    WinnerNotSelected,
    /// The prize has already been paid out.
    AlreadyClaimed,
    /// The draw ended without a winner.
    NoWinner,
    /// The caller is not the winner.
    NotWinner,
    /// The raffle holds no funds.
    NothingToClaim,
    /// The caller's credential was not accepted.
    InvalidCredential,
}

/// The classes into which failures fall.
#[derive(Clone, Copy, Debug, PartialEq, Eq, Structural)]
pub enum ErrorKind {
    /// The caller is not the one the action is reserved for.
    Unauthorized,
    /// The raffle is not in the phase the action needs.
    InvalidState,
    /// What came with the call cannot be accepted.
    InvalidInput,
    /// A counter would leave its range.
    Overflow,
    /// Something the action needs from outside is missing.
    ResourceUnavailable,
    /// The caller could not be authenticated.
    InvalidCredential,
}

impl RaffleError {
    /// The class of this failure.
    pub open spec fn kind_of(self) -> ErrorKind {
        match self {
            RaffleError::Unauthorized | RaffleError::NotWinner => ErrorKind::Unauthorized,
            RaffleError::AlreadyStarted
            | RaffleError::NotConfigured
            | RaffleError::NotStarted
            | RaffleError::RaffleEnded
            | RaffleError::NotYetEnded
            | RaffleError::AlreadySelected
            | RaffleError::WinnerNotSelected
            | RaffleError::AlreadyClaimed
            | RaffleError::NoWinner => ErrorKind::InvalidState,
            RaffleError::ZeroPrice
            | RaffleError::AdminCannotBuy
            | RaffleError::NoFundsSent
            | RaffleError::NotAMultipleOfPrice => ErrorKind::InvalidInput,
            RaffleError::Overflow => ErrorKind::Overflow,
            RaffleError::RandomnessUnavailable
            | RaffleError::NothingToClaim => ErrorKind::ResourceUnavailable,
            RaffleError::InvalidCredential => ErrorKind::InvalidCredential,
        }
    }

    /// The text shown to the caller for this failure.
    pub open spec fn text_of(self) -> Seq<char> {
        match self {
            RaffleError::Unauthorized => "Only admin can do this"@,
            RaffleError::AlreadyStarted => "Raffle already started"@,
            RaffleError::NotConfigured => "Raffle not yet configured"@,
            RaffleError::ZeroPrice => "Ticket price must not be zero"@,
            RaffleError::NotStarted => "Raffle not started"@,
            RaffleError::RaffleEnded => "Raffle has ended"@,
            RaffleError::AdminCannotBuy => "Admin cannot buy tickets"@,
            RaffleError::NoFundsSent => "No uscrt sent"@,
            RaffleError::NotAMultipleOfPrice => "Amount must be a multiple of ticket price"@,
            RaffleError::Overflow => "Ticket count overflow"@,
            RaffleError::NotYetEnded => "Raffle not yet ended"@,
            RaffleError::AlreadySelected => "Winner already selected"@,
            RaffleError::RandomnessUnavailable => "Randomness unavailable"@,
            RaffleError::WinnerNotSelected => "Winner not selected"@,
            RaffleError::AlreadyClaimed => "Prize already claimed"@,
            RaffleError::NoWinner => "No winner set"@,
            RaffleError::NotWinner => "Only winner can do this"@,
            RaffleError::NothingToClaim => "No prize available"@,
            RaffleError::InvalidCredential => "Invalid credential"@,
        }
    }

    /// The class of this failure.
    pub fn kind(&self) -> (k: ErrorKind)
        ensures
            k == self.kind_of(),
    {
        match self {
            RaffleError::Unauthorized => ErrorKind::Unauthorized,
            RaffleError::NotWinner => ErrorKind::Unauthorized,
            RaffleError::AlreadyStarted => ErrorKind::InvalidState,
            RaffleError::NotConfigured => ErrorKind::InvalidState,
            RaffleError::NotStarted => ErrorKind::InvalidState,
            RaffleError::RaffleEnded => ErrorKind::InvalidState,
            RaffleError::NotYetEnded => ErrorKind::InvalidState,
            RaffleError::AlreadySelected => ErrorKind::InvalidState,
            RaffleError::WinnerNotSelected => ErrorKind::InvalidState,
            RaffleError::AlreadyClaimed => ErrorKind::InvalidState,
            RaffleError::NoWinner => ErrorKind::InvalidState,
            RaffleError::ZeroPrice => ErrorKind::InvalidInput,
            RaffleError::AdminCannotBuy => ErrorKind::InvalidInput,
            RaffleError::NoFundsSent => ErrorKind::InvalidInput,
            RaffleError::NotAMultipleOfPrice => ErrorKind::InvalidInput,
            RaffleError::Overflow => ErrorKind::Overflow,
            RaffleError::RandomnessUnavailable => ErrorKind::ResourceUnavailable,
            RaffleError::NothingToClaim => ErrorKind::ResourceUnavailable,
            RaffleError::InvalidCredential => ErrorKind::InvalidCredential,
        }
    }

    /// The text shown to the caller for this failure.
    pub fn message(&self) -> (text: &'static str)
        ensures
            text@ == self.text_of(),
    {
        match self {
            RaffleError::Unauthorized => "Only admin can do this",
            RaffleError::AlreadyStarted => "Raffle already started",
            RaffleError::NotConfigured => "Raffle not yet configured",
            RaffleError::ZeroPrice => "Ticket price must not be zero",
            RaffleError::NotStarted => "Raffle not started",
            RaffleError::RaffleEnded => "Raffle has ended",
            RaffleError::AdminCannotBuy => "Admin cannot buy tickets",
            RaffleError::NoFundsSent => "No uscrt sent",
            RaffleError::NotAMultipleOfPrice => "Amount must be a multiple of ticket price",
            RaffleError::Overflow => "Ticket count overflow",
            RaffleError::NotYetEnded => "Raffle not yet ended",
            RaffleError::AlreadySelected => "Winner already selected",
            RaffleError::RandomnessUnavailable => "Randomness unavailable",
            RaffleError::WinnerNotSelected => "Winner not selected",
            RaffleError::AlreadyClaimed => "Prize already claimed",
            RaffleError::NoWinner => "No winner set",
            RaffleError::NotWinner => "Only winner can do this",
            RaffleError::NothingToClaim => "No prize available",
            RaffleError::InvalidCredential => "Invalid credential",
        }
    }
}

} // verus!
