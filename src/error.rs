use vstd::prelude::*;

verus! {

/// Failures that belong to this program, each with its own custom error code.
#[derive(Debug, Clone, Copy, PartialEq, Eq, Structural)]
pub enum MyProgramError {
    DeserializationFailed,
    WriteOverflow,
    InvalidInstructionData,
    PdaMismatch,
    InvalidOwner,
    AccountEmpty,
    SerializationFailed,
}

/// The custom error code of each program failure: its position in the enumeration.
pub open spec fn custom_code(e: MyProgramError) -> u32 {
    match e {
        MyProgramError::DeserializationFailed => 0,
        MyProgramError::WriteOverflow => 1,
        MyProgramError::InvalidInstructionData => 2,
        MyProgramError::PdaMismatch => 3,
        MyProgramError::InvalidOwner => 4,
        MyProgramError::AccountEmpty => 5,
        MyProgramError::SerializationFailed => 6,
    }
}

impl MyProgramError {
    /// The code under which the host reports this failure as a custom error.
    pub fn code(&self) -> (r: u32)
        ensures
            r == custom_code(*self),
    {
        match self {
            MyProgramError::DeserializationFailed => 0,
            MyProgramError::WriteOverflow => 1,
            MyProgramError::InvalidInstructionData => 2,
            MyProgramError::PdaMismatch => 3,
            MyProgramError::InvalidOwner => 4,
            MyProgramError::AccountEmpty => 5,
            MyProgramError::SerializationFailed => 6,
        }
    }
}

/// Every way an instruction can be rejected: the program's own failures and the
/// conditions that the host platform defines.
#[derive(Debug, Clone, Copy, PartialEq, Eq, Structural)]
pub enum ProgramError {
    Custom(MyProgramError),
    InvalidInstructionData,
    MissingRequiredSignature,
    NotEnoughAccountKeys,
    InvalidSeeds,
    AccountBorrowFailed,
    UninitializedAccount,
    AccountAlreadyInitialized,
    InvalidAccountData,
    ArithmeticOverflow,
}

impl From<MyProgramError> for ProgramError {
    fn from(e: MyProgramError) -> (r: ProgramError) {
        ProgramError::Custom(e)
    }
}

impl vstd::std_specs::convert::FromSpecImpl<MyProgramError> for ProgramError {
    open spec fn obeys_from_spec() -> bool {
        true
    }

    open spec fn from_spec(e: MyProgramError) -> ProgramError {
        ProgramError::Custom(e)
    }
}

} // verus!
