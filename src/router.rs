use vstd::prelude::*;

use crate::error::ProgramError;

verus! {

/// The instructions of the delegation-capable program, by their leading byte.
#[derive(Debug, Clone, Copy, PartialEq, Eq, Structural)]
pub enum DelegationProgram {
    Delegate,
    Undelegate,
    CommitAccounts,
    CommitAndUndelegateAccounts,
}

/// The instruction that a discriminator byte names, if any: 0 to 3 in order.
pub open spec fn delegation_program_of(value: u8) -> Option<DelegationProgram> {
    if value == 0 {
        Some(DelegationProgram::Delegate)
    } else if value == 1 {
        Some(DelegationProgram::Undelegate)
    } else if value == 2 {
        Some(DelegationProgram::CommitAccounts)
    } else if value == 3 {
        Some(DelegationProgram::CommitAndUndelegateAccounts)
    } else {
        None
    }
}

impl DelegationProgram {
    /// Reads a discriminator byte; an undefined one is invalid instruction data.
    pub fn try_from(value: &u8) -> (r: Result<DelegationProgram, ProgramError>)
        ensures
            match delegation_program_of(*value) {
                Some(p) => r == Ok::<_, ProgramError>(p),
                None => r == Err::<DelegationProgram, _>(ProgramError::InvalidInstructionData),
            },
    {
        match *value {
            0 => Ok(DelegationProgram::Delegate),
            1 => Ok(DelegationProgram::Undelegate),
            2 => Ok(DelegationProgram::CommitAccounts),
            3 => Ok(DelegationProgram::CommitAndUndelegateAccounts),
            _ => Err(ProgramError::InvalidInstructionData),
        }
    }
}

/// The instructions of the escrow program, by their leading byte.
#[derive(Debug, Clone, Copy, PartialEq, Eq, Structural)]
pub enum EscrowInstruction {
    MakeOffer,
    TakeOffer,
    RefundOffer,
    Delegate,
}

/// The instruction that a discriminator byte names, if any: 0 to 3 in order.
pub open spec fn escrow_instruction_of(value: u8) -> Option<EscrowInstruction> {
    if value == 0 {
        Some(EscrowInstruction::MakeOffer)
    } else if value == 1 {
        Some(EscrowInstruction::TakeOffer)
    } else if value == 2 {
        Some(EscrowInstruction::RefundOffer)
    } else if value == 3 {
        Some(EscrowInstruction::Delegate)
    } else {
        None
    }
}

impl EscrowInstruction {
    /// Reads a discriminator byte; an undefined one is invalid instruction data.
    pub fn try_from(value: &u8) -> (r: Result<EscrowInstruction, ProgramError>)
        ensures
            match escrow_instruction_of(*value) {
                Some(p) => r == Ok::<_, ProgramError>(p),
                None => r == Err::<EscrowInstruction, _>(ProgramError::InvalidInstructionData),
            },
    {
        match *value {
            0 => Ok(EscrowInstruction::MakeOffer),
            1 => Ok(EscrowInstruction::TakeOffer),
            2 => Ok(EscrowInstruction::RefundOffer),
            3 => Ok(EscrowInstruction::Delegate),
            _ => Err(ProgramError::InvalidInstructionData),
        }
    }
}

/// Splits an instruction buffer into its discriminator and its payload; an empty
/// buffer is invalid instruction data.
pub fn split_discriminator(data: &[u8]) -> (r: Result<(u8, &[u8]), ProgramError>)
    ensures
        data@.len() == 0 ==> r == Err::<(u8, &[u8]), _>(ProgramError::InvalidInstructionData),
        data@.len() > 0 ==> (r matches Ok((d, rest)) && d == data@[0] && rest@ == data@.subrange(
            1,
            data@.len() as int,
        )),
{
    if data.len() == 0 {
        return Err(ProgramError::InvalidInstructionData);
    }
    Ok((data[0], vstd::slice::slice_subrange(data, 1, data.len())))
}

/// Each byte names at most one instruction; exactly 0 to 3 name one, and every
/// other byte is rejected as invalid instruction data.
pub proof fn lemma_discriminators_exhaustive(value: u8)
    ensures
        (value <= 3) == delegation_program_of(value) is Some,
        (value <= 3) == escrow_instruction_of(value) is Some,
        forall|w: u8|
            delegation_program_of(w) is Some && delegation_program_of(w) == delegation_program_of(
                value,
            ) ==> w == value,
        forall|w: u8|
            escrow_instruction_of(w) is Some && escrow_instruction_of(w) == escrow_instruction_of(
                value,
            ) ==> w == value,
{
}

} // verus!
