use escrow_delegation::address::{get_seeds, signer_seeds};
use escrow_delegation::effects::{AccountView, Effect};
use escrow_delegation::error::{MyProgramError, ProgramError};
use escrow_delegation::escrow::{
    escrow_seeds, make_offer_with, process_make_offer_instruction, process_refund_offer_instruction,
    process_take_offer_instruction, refund_offer_with, take_offer_with, MakeOfferIxData,
};
use escrow_delegation::state::EscrowState;

const PROGRAM: [u8; 32] = [42u8; 32];
const MAKER: [u8; 32] = [1u8; 32];
const TAKER: [u8; 32] = [9u8; 32];
const MINT_X: [u8; 32] = [2u8; 32];
const MINT_Y: [u8; 32] = [3u8; 32];
const ESCROW: [u8; 32] = [5u8; 32];
const BUMP: u8 = 253;

fn acct(key: [u8; 32], signer: bool) -> AccountView {
    AccountView { key, owner: [0u8; 32], lamports: 0, data: vec![], is_signer: signer }
}

fn escrow_record(maker: [u8; 32]) -> AccountView {
    let st = EscrowState { maker, mint_x: MINT_X, mint_y: MINT_Y, amount: 200u64.to_le_bytes(), bump: BUMP };
    AccountView { key: ESCROW, owner: PROGRAM, lamports: 1_000, data: st.to_bytes(), is_signer: false }
}

fn make_accounts() -> Vec<AccountView> {
    vec![
        acct(MAKER, true),
        acct(MINT_X, false),
        acct(MINT_Y, false),
        acct([10u8; 32], false),
        acct([11u8; 32], false),
        acct(ESCROW, false),
        acct([0u8; 32], false),
        acct([12u8; 32], false),
    ]
}

fn offer_payload(bump: u8, x: u64, y: u64) -> Vec<u8> {
    let mut d = vec![bump];
    d.extend_from_slice(&x.to_le_bytes());
    d.extend_from_slice(&y.to_le_bytes());
    d
}

fn escrow_signer(maker: &[u8; 32]) -> Vec<Vec<u8>> {
    vec![b"escrow".to_vec(), maker.to_vec(), vec![BUMP]]
}

#[test]
fn signer_seeds_end_with_bump() {
    assert_eq!(signer_seeds(&escrow_seeds(&MAKER), BUMP), escrow_signer(&MAKER));
}

#[test]
fn get_seeds_keeps_seeds_as_given() {
    let seeds = vec![b"escrow".to_vec(), vec![], MAKER.to_vec()];
    assert_eq!(get_seeds(&seeds), seeds);
    assert_eq!(get_seeds(&vec![]), Vec::<Vec<u8>>::new());
}

#[test]
fn offer_payload_fields() {
    let d = offer_payload(7, 100, 200);
    let ix = MakeOfferIxData::from_bytes(&d).unwrap();
    assert_eq!(ix.bump, 7);
    assert_eq!(ix.amount_x(), 100);
    assert_eq!(ix.amount_mint_y, 200u64.to_le_bytes());
    assert_eq!(MakeOfferIxData::from_bytes(&d[..16]), Err(ProgramError::InvalidInstructionData));
}

#[test]
fn make_offer_creates_record_and_deposits() {
    let es = make_offer_with(&PROGRAM, &make_accounts(), &offer_payload(0, 100, 200), Some((ESCROW, BUMP)), 5_000)
        .unwrap();
    assert_eq!(
        es,
        vec![
            Effect::CreateAccount {
                from: 0,
                to: 5,
                lamports: 5_000,
                space: 105,
                owner: PROGRAM,
                signer: escrow_signer(&MAKER),
            },
            Effect::InitializeEscrow {
                account: 5,
                state: EscrowState {
                    maker: MAKER,
                    mint_x: MINT_X,
                    mint_y: MINT_Y,
                    amount: 200u64.to_le_bytes(),
                    bump: BUMP,
                },
            },
            Effect::TokenTransfer { from: 3, to: 4, authority: 0, amount: 100, signer: vec![] },
        ]
    );
}

#[test]
fn make_offer_rejections() {
    let accts = make_accounts();
    let d = offer_payload(0, 100, 200);
    assert_eq!(
        make_offer_with(&PROGRAM, &accts[..7], &d, Some((ESCROW, BUMP)), 1),
        Err(ProgramError::NotEnoughAccountKeys)
    );
    let mut unsigned = accts.clone();
    unsigned[0].is_signer = false;
    assert_eq!(
        make_offer_with(&PROGRAM, &unsigned, &d, Some((ESCROW, BUMP)), 1),
        Err(ProgramError::MissingRequiredSignature)
    );
    assert_eq!(
        make_offer_with(&PROGRAM, &accts, &d[..16], Some((ESCROW, BUMP)), 1),
        Err(ProgramError::InvalidInstructionData)
    );
    assert_eq!(make_offer_with(&PROGRAM, &accts, &d, None, 1), Err(ProgramError::InvalidSeeds));
    assert_eq!(
        make_offer_with(&PROGRAM, &accts, &d, Some(([6u8; 32], BUMP)), 1),
        Err(ProgramError::Custom(MyProgramError::PdaMismatch))
    );
}

#[test]
fn handlers_need_the_host_to_derive_addresses() {
    // Off the chain, the host derives no address, so every handler stops there.
    let d = offer_payload(0, 100, 200);
    assert_eq!(process_make_offer_instruction(&PROGRAM, &make_accounts(), &d, 1), Err(ProgramError::InvalidSeeds));
    assert_eq!(process_take_offer_instruction(&PROGRAM, &take_accounts(), 100), Err(ProgramError::InvalidSeeds));
    assert_eq!(
        process_refund_offer_instruction(&PROGRAM, &refund_accounts(MAKER), 100),
        Err(ProgramError::InvalidSeeds)
    );
    assert_eq!(
        process_make_offer_instruction(&PROGRAM, &make_accounts()[..3], &d, 1),
        Err(ProgramError::NotEnoughAccountKeys)
    );
}

fn take_accounts() -> Vec<AccountView> {
    vec![
        acct(TAKER, true),
        acct(MAKER, false),
        acct(MINT_X, false),
        acct(MINT_Y, false),
        acct([20u8; 32], false),
        acct([21u8; 32], false),
        acct([22u8; 32], false),
        acct([11u8; 32], false),
        escrow_record(MAKER),
        acct([0u8; 32], false),
        acct([12u8; 32], false),
    ]
}

#[test]
fn take_offer_settles_both_legs() {
    let es = take_offer_with(&PROGRAM, &take_accounts(), Some((ESCROW, BUMP)), 100).unwrap();
    assert_eq!(
        es,
        vec![
            Effect::TokenTransfer { from: 5, to: 6, authority: 0, amount: 200, signer: vec![] },
            Effect::TokenTransfer { from: 7, to: 4, authority: 8, amount: 100, signer: escrow_signer(&MAKER) },
            Effect::CloseTokenAccount { account: 7, destination: 0, authority: 8, signer: escrow_signer(&MAKER) },
            Effect::CloseRecord { account: 8, destination: 1, system: 9 },
        ]
    );
}

#[test]
fn take_offer_rejections() {
    let accts = take_accounts();
    assert_eq!(
        take_offer_with(&PROGRAM, &accts, Some((ESCROW, BUMP - 1)), 100),
        Err(ProgramError::Custom(MyProgramError::PdaMismatch))
    );
    assert_eq!(take_offer_with(&PROGRAM, &accts, None, 100), Err(ProgramError::InvalidSeeds));
    let mut wrong_mint = accts.clone();
    wrong_mint[3].key = [77u8; 32];
    assert_eq!(
        take_offer_with(&PROGRAM, &wrong_mint, Some((ESCROW, BUMP)), 100),
        Err(ProgramError::InvalidAccountData)
    );
    let mut foreign = accts.clone();
    foreign[8].owner = [66u8; 32];
    assert_eq!(
        take_offer_with(&PROGRAM, &foreign, Some((ESCROW, BUMP)), 100),
        Err(ProgramError::Custom(MyProgramError::InvalidOwner))
    );
    let mut short = accts.clone();
    short[8].data.pop();
    assert_eq!(
        take_offer_with(&PROGRAM, &short, Some((ESCROW, BUMP)), 100),
        Err(ProgramError::Custom(MyProgramError::DeserializationFailed))
    );
    let mut unsigned = accts.clone();
    unsigned[0].is_signer = false;
    assert_eq!(
        take_offer_with(&PROGRAM, &unsigned, Some((ESCROW, BUMP)), 100),
        Err(ProgramError::MissingRequiredSignature)
    );
}

fn refund_accounts(signer: [u8; 32]) -> Vec<AccountView> {
    vec![
        acct(signer, true),
        acct(MINT_X, false),
        acct([10u8; 32], false),
        acct([11u8; 32], false),
        escrow_record(MAKER),
        acct([0u8; 32], false),
        acct([12u8; 32], false),
    ]
}

#[test]
fn refund_returns_vault_to_maker() {
    let es = refund_offer_with(&PROGRAM, &refund_accounts(MAKER), Some((ESCROW, BUMP)), 100).unwrap();
    assert_eq!(
        es,
        vec![
            Effect::TokenTransfer { from: 3, to: 2, authority: 4, amount: 100, signer: escrow_signer(&MAKER) },
            Effect::CloseTokenAccount { account: 3, destination: 0, authority: 4, signer: escrow_signer(&MAKER) },
            Effect::CloseRecord { account: 4, destination: 0, system: 5 },
        ]
    );
}

#[test]
fn refund_by_other_signer_fails() {
    assert_eq!(
        refund_offer_with(&PROGRAM, &refund_accounts(TAKER), Some((ESCROW, BUMP)), 100),
        Err(ProgramError::Custom(MyProgramError::InvalidOwner))
    );
}

#[test]
fn refund_of_empty_record_fails() {
    let mut accts = refund_accounts(MAKER);
    accts[4].data.clear();
    assert_eq!(
        refund_offer_with(&PROGRAM, &accts, Some((ESCROW, BUMP)), 100),
        Err(ProgramError::Custom(MyProgramError::AccountEmpty))
    );
    let mut wrong_mint = refund_accounts(MAKER);
    wrong_mint[1].key = [78u8; 32];
    assert_eq!(
        refund_offer_with(&PROGRAM, &wrong_mint, Some((ESCROW, BUMP)), 100),
        Err(ProgramError::InvalidAccountData)
    );
}
