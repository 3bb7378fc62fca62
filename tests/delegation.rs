use escrow_delegation::codec::{encode_delegate_ix_data, DelegateConfig};
use escrow_delegation::delegation::{
    buffer_seeds, close_pda_acc, create_schedule_commit_ix, delegate_with, process_delegate,
    process_undelegate, undelegate_with,
};
use escrow_delegation::effects::{AccountView, Effect, Meta};
use escrow_delegation::error::{MyProgramError, ProgramError};

const PROGRAM: [u8; 32] = [42u8; 32];
const DELEGATION: [u8; 32] = [43u8; 32];
const TARGET: [u8; 32] = [50u8; 32];
const BUFFER: [u8; 32] = [51u8; 32];

fn acct(key: [u8; 32], signer: bool, data: Vec<u8>) -> AccountView {
    AccountView { key, owner: PROGRAM, lamports: 0, data, is_signer: signer }
}

fn delegate_accounts() -> Vec<AccountView> {
    vec![
        acct([1u8; 32], true, vec![]),
        acct(TARGET, false, vec![1, 2, 3, 4, 5]),
        acct(PROGRAM, false, vec![]),
        acct(BUFFER, false, vec![]),
        acct([60u8; 32], false, vec![]),
        acct([61u8; 32], false, vec![]),
        acct([0u8; 32], false, vec![]),
    ]
}

#[test]
fn delegate_stages_buffer_and_calls_authority() {
    let seeds = vec![b"counter".to_vec()];
    let config = DelegateConfig { commit_frequency_ms: 1000, validator: None };
    let es = delegate_with(
        &PROGRAM,
        &DELEGATION,
        &delegate_accounts(),
        seeds.clone(),
        config,
        Some((TARGET, 255)),
        Some((BUFFER, 254)),
        900,
    )
    .unwrap();
    assert_eq!(es.len(), 3);
    assert_eq!(
        es[0],
        Effect::CreateAccount {
            from: 0,
            to: 3,
            lamports: 900,
            space: 5,
            owner: PROGRAM,
            signer: vec![b"buffer".to_vec(), TARGET.to_vec(), vec![254]],
        }
    );
    let metas = vec![
        Meta { key: [1u8; 32], is_writable: true, is_signer: true },
        Meta { key: TARGET, is_writable: true, is_signer: false },
        Meta { key: PROGRAM, is_writable: false, is_signer: false },
        Meta { key: BUFFER, is_writable: true, is_signer: false },
        Meta { key: [60u8; 32], is_writable: true, is_signer: true },
        Meta { key: [61u8; 32], is_writable: false, is_signer: false },
        Meta { key: [0u8; 32], is_writable: false, is_signer: false },
    ];
    let mut data = vec![0xe8, 3, 0, 0, 1, 7, 0, 0, 0];
    data.extend_from_slice(b"counter");
    assert_eq!(
        es[1],
        Effect::Invoke {
            program_id: DELEGATION,
            metas,
            data,
            accounts: vec![0, 1, 2, 3, 4, 5, 6],
            signer: vec![b"counter".to_vec(), vec![255]],
        }
    );
    assert_eq!(es[2], close_pda_acc(0, 3, 6));
    assert_eq!(es[2], Effect::CloseRecord { account: 3, destination: 0, system: 6 });
}

#[test]
fn delegate_rejections() {
    let seeds = vec![b"counter".to_vec()];
    let config = DelegateConfig { commit_frequency_ms: 1000, validator: None };
    let accts = delegate_accounts();
    assert_eq!(
        delegate_with(&PROGRAM, &DELEGATION, &accts, seeds.clone(), config, Some((BUFFER, 255)), Some((BUFFER, 254)), 1),
        Err(ProgramError::Custom(MyProgramError::PdaMismatch))
    );
    assert_eq!(
        delegate_with(&PROGRAM, &DELEGATION, &accts, seeds.clone(), config, Some((TARGET, 255)), None, 1),
        Err(ProgramError::InvalidSeeds)
    );
    let mut unsigned = accts.clone();
    unsigned[0].is_signer = false;
    let payload = encode_delegate_ix_data(&seeds, &config);
    assert_eq!(
        process_delegate(&PROGRAM, &DELEGATION, &unsigned, &payload, 1),
        Err(ProgramError::MissingRequiredSignature)
    );
    assert_eq!(
        process_delegate(&PROGRAM, &DELEGATION, &accts, &payload[..3], 1),
        Err(ProgramError::InvalidInstructionData)
    );
    assert_eq!(
        process_delegate(&PROGRAM, &DELEGATION, &accts[..6], &payload, 1),
        Err(ProgramError::NotEnoughAccountKeys)
    );
}

#[test]
fn buffer_seeds_name_the_target() {
    assert_eq!(buffer_seeds(&TARGET), vec![b"buffer".to_vec(), TARGET.to_vec()]);
}

fn undelegate_accounts() -> Vec<AccountView> {
    vec![
        acct([1u8; 32], false, vec![]),
        acct(TARGET, false, vec![]),
        acct(PROGRAM, false, vec![]),
        acct(BUFFER, true, vec![1, 2, 3, 4, 5]),
        acct([0u8; 32], false, vec![]),
    ]
}

#[test]
fn undelegate_recreates_record_from_buffer() {
    let seeds = vec![b"counter".to_vec()];
    let es = undelegate_with(&undelegate_accounts(), &seeds, Some((TARGET, 255)), 700).unwrap();
    assert_eq!(
        es,
        vec![
            Effect::CreateAccount {
                from: 0,
                to: 1,
                lamports: 700,
                space: 5,
                owner: PROGRAM,
                signer: vec![b"counter".to_vec(), vec![255]],
            },
            Effect::CopyData { from: 3, to: 1 },
        ]
    );
}

#[test]
fn undelegate_rejections() {
    let seeds = vec![b"counter".to_vec()];
    let accts = undelegate_accounts();
    assert_eq!(
        undelegate_with(&accts, &seeds, Some((BUFFER, 255)), 1),
        Err(ProgramError::Custom(MyProgramError::PdaMismatch))
    );
    let mut unsigned = accts.clone();
    unsigned[3].is_signer = false;
    assert_eq!(process_undelegate(&PROGRAM, &unsigned, &[0], 1), Err(ProgramError::MissingRequiredSignature));
    assert_eq!(process_undelegate(&PROGRAM, &accts, &[1, 9], 1), Err(ProgramError::InvalidInstructionData));
    assert_eq!(process_undelegate(&PROGRAM, &accts, &[1, 0], 1), Err(ProgramError::InvalidSeeds));
}

#[test]
fn commit_call_layout() {
    let payer = acct([1u8; 32], true, vec![]);
    let ctx = acct([2u8; 32], false, vec![]);
    let magic = acct([3u8; 32], false, vec![]);
    let list = vec![acct([4u8; 32], false, vec![]), acct([5u8; 32], false, vec![])];
    let ix = create_schedule_commit_ix(&payer, &list, &ctx, &magic, true);
    assert_eq!(ix.program_id, [3u8; 32]);
    assert_eq!(ix.data, vec![2, 0, 0, 0]);
    assert_eq!(
        ix.accounts,
        vec![
            Meta { key: [1u8; 32], is_writable: true, is_signer: true },
            Meta { key: [2u8; 32], is_writable: true, is_signer: false },
            Meta { key: [4u8; 32], is_writable: true, is_signer: true },
            Meta { key: [5u8; 32], is_writable: true, is_signer: true },
        ]
    );
    assert_eq!(create_schedule_commit_ix(&payer, &[], &ctx, &magic, false).data, vec![1, 0, 0, 0]);
}
