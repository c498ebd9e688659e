use vstd::prelude::*;
use vstd::std_specs::convert::{FromSpecImpl, TryFromSpecImpl};

verus! {

/// The parts of the session state that a server can report as changed, as
/// a set of bits in a 16-bit word.
#[derive(Debug, Clone, Copy, PartialEq, Eq, Structural)]
pub struct ConnectionState {
    bits: u16,
}

impl ConnectionState {
    pub const NETWORK_TIMEOUT: u16 = 1;
    pub const DATABASE: u16 = 2;
    pub const READ_ONLY: u16 = 4;
    pub const AUTO_COMMIT: u16 = 8;
    pub const TRANSACTION_ISOLATION: u16 = 16;

    /// Every defined flag at once.
    pub const ALL: u16 = 31;

    /// The set as a 16-bit word, one bit per flag.
    pub closed spec fn view(&self) -> u16 {
        self.bits
    }

    /// The flags as a 16-bit word.
    pub fn bits(&self) -> (r: u16)
        ensures
            r == self@,
    {
        self.bits
    }

    /// The set of the defined flags in `bits`; undefined bits are dropped.
    pub fn from_bits_truncate(bits: u16) -> (r: ConnectionState)
        ensures
            r@ == bits & ConnectionState::ALL,
    {
        ConnectionState { bits: bits & ConnectionState::ALL }
    }

    /// Whether every flag of `other` is also in `self`.
    pub fn contains(&self, other: ConnectionState) -> (r: bool)
        ensures
            r == (self@ & other@ == other@),
    {
        self.bits & other.bits == other.bits
    }
}

/// The kinds of session-state change that a server reports, each with the
/// byte that stands for it on the wire.
#[derive(Debug, Clone, Copy, PartialEq, Eq, Structural)]
pub enum StateChange {
    SystemVariables,
    Schema,
    StateChange,
    GTIDs,
    TransactionCharacteristics,
    TransactionState,
}

/// A byte that stands for no kind of state change; it holds the byte.
#[derive(Debug, Clone, Copy, PartialEq, Eq, Structural)]
pub struct ParseStateChangeError(pub u8);

impl StateChange {
    /// The byte that stands for this kind on the wire.
    pub open spec fn code(self) -> u8 {
        match self {
            StateChange::SystemVariables => 0,
            StateChange::Schema => 1,
            StateChange::StateChange => 2,
            StateChange::GTIDs => 3,
            StateChange::TransactionCharacteristics => 4,
            StateChange::TransactionState => 5,
        }
    }

    /// The kind that `value` stands for, or the error that holds `value`.
    pub open spec fn of_code(value: u8) -> Result<StateChange, ParseStateChangeError> {
        match value {
            0 => Ok(StateChange::SystemVariables),
            1 => Ok(StateChange::Schema),
            2 => Ok(StateChange::StateChange),
            3 => Ok(StateChange::GTIDs),
            4 => Ok(StateChange::TransactionCharacteristics),
            5 => Ok(StateChange::TransactionState),
            _ => Err(ParseStateChangeError(value)),
        }
    }
}

impl TryFrom<u8> for StateChange {
    type Error = ParseStateChangeError;

    fn try_from(value: u8) -> (r: Result<Self, ParseStateChangeError>) {
        match value {
            0 => Ok(StateChange::SystemVariables),
            1 => Ok(StateChange::Schema),
            2 => Ok(StateChange::StateChange),
            3 => Ok(StateChange::GTIDs),
            4 => Ok(StateChange::TransactionCharacteristics),
            5 => Ok(StateChange::TransactionState),
            _ => Err(ParseStateChangeError(value)),
        }
    }
}

impl TryFromSpecImpl<u8> for StateChange {
    open spec fn obeys_try_from_spec() -> bool {
        true
    }

    open spec fn try_from_spec(value: u8) -> Result<Self, ParseStateChangeError> {
        StateChange::of_code(value)
    }
}

impl From<StateChange> for u8 {
    fn from(value: StateChange) -> (r: u8) {
        match value {
            StateChange::SystemVariables => 0,
            StateChange::Schema => 1,
            StateChange::StateChange => 2,
            StateChange::GTIDs => 3,
            StateChange::TransactionCharacteristics => 4,
            StateChange::TransactionState => 5,
        }
    }
}

impl FromSpecImpl<StateChange> for u8 {
    open spec fn obeys_from_spec() -> bool {
        true
    }

    open spec fn from_spec(value: StateChange) -> u8 {
        value.code()
    }
}

/// The byte of a kind stands for that kind again.
pub proof fn lemma_state_change_code_round_trip(change: StateChange)
    ensures
        StateChange::of_code(change.code()) == Ok::<StateChange, ParseStateChangeError>(change),
{
}

} // verus!
