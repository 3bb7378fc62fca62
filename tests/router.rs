use escrow_delegation::error::ProgramError;
use escrow_delegation::router::{split_discriminator, DelegationProgram, EscrowInstruction};

#[test]
fn defined_delegation_discriminators() {
    assert_eq!(DelegationProgram::try_from(&0), Ok(DelegationProgram::Delegate));
    assert_eq!(DelegationProgram::try_from(&1), Ok(DelegationProgram::Undelegate));
    assert_eq!(DelegationProgram::try_from(&2), Ok(DelegationProgram::CommitAccounts));
    assert_eq!(
        DelegationProgram::try_from(&3),
        Ok(DelegationProgram::CommitAndUndelegateAccounts)
    );
}

#[test]
fn defined_escrow_discriminators() {
    assert_eq!(EscrowInstruction::try_from(&0), Ok(EscrowInstruction::MakeOffer));
    assert_eq!(EscrowInstruction::try_from(&1), Ok(EscrowInstruction::TakeOffer));
    assert_eq!(EscrowInstruction::try_from(&2), Ok(EscrowInstruction::RefundOffer));
    assert_eq!(EscrowInstruction::try_from(&3), Ok(EscrowInstruction::Delegate));
}

#[test]
fn every_undefined_discriminator_is_rejected() {
    for v in 4u8..=255 {
        assert_eq!(DelegationProgram::try_from(&v), Err(ProgramError::InvalidInstructionData));
        assert_eq!(EscrowInstruction::try_from(&v), Err(ProgramError::InvalidInstructionData));
    }
}

#[test]
fn discriminator_split() {
    assert_eq!(split_discriminator(&[]), Err(ProgramError::InvalidInstructionData));
    let (d, rest) = split_discriminator(&[3, 9, 8]).unwrap();
    assert_eq!(d, 3);
    assert_eq!(rest, &[9, 8]);
}
