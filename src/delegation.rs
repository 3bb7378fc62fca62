use vstd::prelude::*;

use crate::address::{derive_address, signer_seeds, program_address_of, signer_seeds_of, derived_view};
use crate::codec::{
    delegate_args_bytes, delegate_ix_of, deserialize_delegate_ix_data,
    deserialize_undelegate_ix_data, keys_equal, seeds_fit, serialize_delegate_account_args,
    undelegate_ix_of, DelegateAccountArgs, DelegateConfig, Pubkey, key_opt_view,
};
use crate::effects::{AccountView, Effect, EffectModel, Meta, effects_view, result_view};
use crate::error::{MyProgramError, ProgramError};
use crate::ledger::{apply_effects, is_fresh, settle, LedgerAccount};

verus! {

/// The fixed seed of a buffer record: the bytes of "buffer".
pub open spec fn buffer_tag() -> Seq<u8> {
    seq![98u8, 117u8, 102u8, 102u8, 101u8, 114u8]
}

/// The seeds of the buffer record that stages the delegation of `target`.
pub open spec fn buffer_seeds_of(target: Seq<u8>) -> Seq<Seq<u8>> {
    seq![buffer_tag(), target]
}

/// Builds the seeds of the buffer record of `target`.
pub fn buffer_seeds(target: &Pubkey) -> (r: Vec<Vec<u8>>)
    ensures
        r.deep_view() == buffer_seeds_of(target@),
{
    let mut tag: Vec<u8> = Vec::new();
    tag.push(98u8);
    tag.push(117u8);
    tag.push(102u8);
    tag.push(102u8);
    tag.push(101u8);
    tag.push(114u8);
    assert(tag@ =~= buffer_tag());
    let mut t: Vec<u8> = Vec::new();
    crate::codec::push_all(&mut t, target.as_slice());
    assert(t@ =~= target@);
    let mut r: Vec<Vec<u8>> = Vec::new();
    r.push(tag);
    r.push(t);
    assert(r.deep_view()[0] == buffer_tag());
    assert(r.deep_view()[1] == target@);
    assert(r.deep_view() =~= buffer_seeds_of(target@));
    r
}

/// The account references of the call to the delegation authority: payer
/// (writable, signer), target (writable), owning program, buffer (writable),
/// delegation record (writable, signer), delegation metadata, system authority.
pub open spec fn delegate_metas(accounts: Seq<AccountView>) -> Seq<(Seq<u8>, bool, bool)> {
    seq![
        (accounts[0].key@, true, true),
        (accounts[1].key@, true, false),
        (accounts[2].key@, false, false),
        (accounts[3].key@, true, false),
        (accounts[4].key@, true, true),
        (accounts[5].key@, false, false),
        (accounts[6].key@, false, false),
    ]
}

/// The call to the delegation authority, signed by the delegated record.
pub open spec fn delegate_call(
    delegation_program: Seq<u8>,
    accounts: Seq<AccountView>,
    seeds: Seq<Seq<u8>>,
    config: (u32, Option<Seq<u8>>),
    signer: Seq<Seq<u8>>,
) -> EffectModel {
    EffectModel::Invoke {
        program_id: delegation_program,
        metas: delegate_metas(accounts),
        data: delegate_args_bytes(config.0, seeds, config.1),
        accounts: seq![0usize, 1usize, 2usize, 3usize, 4usize, 5usize, 6usize],
        signer: signer,
    }
}

/// Builds the call to the delegation authority. Accounts: payer, target, owning
/// program, buffer, delegation record, delegation metadata, system authority.
pub fn cpi_delegate(
    delegation_program: &Pubkey,
    accounts: &[AccountView],
    delegate_args: &DelegateAccountArgs,
    signer_seeds: Vec<Vec<u8>>,
) -> (r: Effect)
    requires
        accounts@.len() >= 7,
        seeds_fit(delegate_args.seeds.deep_view()),
    ensures
        r@ == delegate_call(
            delegation_program@,
            accounts@,
            delegate_args.seeds.deep_view(),
            (delegate_args.commit_frequency_ms, key_opt_view(delegate_args.validator)),
            signer_seeds.deep_view(),
        ),
{
    let mut metas: Vec<Meta> = Vec::new();
    metas.push(Meta { key: accounts[0].key, is_writable: true, is_signer: true });
    metas.push(Meta { key: accounts[1].key, is_writable: true, is_signer: false });
    metas.push(Meta { key: accounts[2].key, is_writable: false, is_signer: false });
    metas.push(Meta { key: accounts[3].key, is_writable: true, is_signer: false });
    metas.push(Meta { key: accounts[4].key, is_writable: true, is_signer: true });
    metas.push(Meta { key: accounts[5].key, is_writable: false, is_signer: false });
    metas.push(Meta { key: accounts[6].key, is_writable: false, is_signer: false });
    let data = serialize_delegate_account_args(delegate_args);
    let mut idx: Vec<usize> = Vec::new();
    let mut i: usize = 0;
    while i < 7
        invariant
            i <= 7,
            idx@.len() == i,
            forall|j: int| 0 <= j < i ==> idx@[j] == j,
        decreases 7 - i,
    {
        idx.push(i);
        i = i + 1;
    }
    let r = Effect::Invoke {
        program_id: *delegation_program,
        metas,
        data,
        accounts: idx,
        signer: signer_seeds,
    };
    proof {
        let m = r@;
        if let EffectModel::Invoke { metas: mv, accounts: av, .. } = m {
            assert(mv =~= delegate_metas(accounts@));
            assert(av =~= seq![0usize, 1usize, 2usize, 3usize, 4usize, 5usize, 6usize]);
        }
    }
    r
}

/// Closes a program-owned record: pays its balance to `payer`, empties it and
/// hands it to the system authority.
pub fn close_pda_acc(payer: usize, pda_acc: usize, system_program: usize) -> (r: Effect)
    ensures
        r@ == (EffectModel::CloseRecord { account: pda_acc, destination: payer, system: system_program }),
{
    Effect::CloseRecord { account: pda_acc, destination: payer, system: system_program }
}

/// What `Delegate` does once its payload is read and the derivations of the target
/// record and of its buffer are known. Accounts: payer, target record, owning
/// program, buffer, delegation record, delegation metadata, system authority.
pub open spec fn delegate_spec(
    program_id: Seq<u8>,
    delegation_program: Seq<u8>,
    accounts: Seq<AccountView>,
    seeds: Seq<Seq<u8>>,
    config: (u32, Option<Seq<u8>>),
    target: Option<(Seq<u8>, u8)>,
    buffer: Option<(Seq<u8>, u8)>,
    min_balance: u64,
) -> Result<Seq<EffectModel>, ProgramError> {
    if accounts.len() < 7 {
        Err(ProgramError::NotEnoughAccountKeys)
    } else if !accounts[0].is_signer {
        Err(ProgramError::MissingRequiredSignature)
    } else {
        match (target, buffer) {
            (None, _) => Err(ProgramError::InvalidSeeds),
            (_, None) => Err(ProgramError::InvalidSeeds),
            (Some((ta, tb)), Some((ba, bb))) => if ta != accounts[1].key@ || ba != accounts[3].key@ {
                Err(ProgramError::Custom(MyProgramError::PdaMismatch))
            } else {
                Ok(
                    seq![
                        EffectModel::CreateAccount {
                            from: 0,
                            to: 3,
                            lamports: min_balance,
                            space: accounts[1].data@.len() as u64,
                            owner: program_id,
                            signer: signer_seeds_of(buffer_seeds_of(accounts[1].key@), bb),
                        },
                        delegate_call(
                            delegation_program,
                            accounts,
                            seeds,
                            config,
                            signer_seeds_of(seeds, tb),
                        ),
                        EffectModel::CloseRecord { account: 3, destination: 0, system: 6 },
                    ],
                )
            },
        }
    }
}

/// `Delegate` once the payload is read and the derivations are known: stages a
/// buffer the size of the target record, calls the delegation authority signed by
/// the target record, then closes the buffer in the payer's favour.
pub fn delegate_with(
    program_id: &Pubkey,
    delegation_program: &Pubkey,
    accounts: &[AccountView],
    seeds: Vec<Vec<u8>>,
    config: DelegateConfig,
    target: Option<(Pubkey, u8)>,
    buffer: Option<(Pubkey, u8)>,
    min_balance: u64,
) -> (r: Result<Vec<Effect>, ProgramError>)
    requires
        seeds_fit(seeds.deep_view()),
    ensures
        result_view(r) == delegate_spec(
            program_id@,
            delegation_program@,
            accounts@,
            seeds.deep_view(),
            config@,
            derived_view(target),
            derived_view(buffer),
            min_balance,
        ),
{
    if accounts.len() < 7 {
        return Err(ProgramError::NotEnoughAccountKeys);
    }
    if !accounts[0].is_signer {
        return Err(ProgramError::MissingRequiredSignature);
    }
    let (ta, tb) = match target {
        None => {
            return Err(ProgramError::InvalidSeeds);
        },
        Some(t) => t,
    };
    let (ba, bb) = match buffer {
        None => {
            return Err(ProgramError::InvalidSeeds);
        },
        Some(b) => b,
    };
    if !keys_equal(&ta, &accounts[1].key) || !keys_equal(&ba, &accounts[3].key) {
        return Err(ProgramError::Custom(MyProgramError::PdaMismatch));
    }
    let bseeds = buffer_seeds(&accounts[1].key);
    let buffer_signer = signer_seeds(&bseeds, bb);
    let delegate_signer = signer_seeds(&seeds, tb);
    let mut es: Vec<Effect> = Vec::new();
    es.push(
        Effect::CreateAccount {
            from: 0,
            to: 3,
            lamports: min_balance,
            space: accounts[1].data.len() as u64,
            owner: *program_id,
            signer: buffer_signer,
        },
    );
    let args = DelegateAccountArgs {
        commit_frequency_ms: config.commit_frequency_ms,
        seeds,
        validator: config.validator,
    };
    es.push(cpi_delegate(delegation_program, accounts, &args, delegate_signer));
    es.push(close_pda_acc(0, 3, 6));
    proof {
        assert(effects_view(es@) =~= delegate_spec(
            program_id@,
            delegation_program@,
            accounts@,
            args.seeds.deep_view(),
            config@,
            derived_view(target),
            derived_view(buffer),
            min_balance,
        ).unwrap());
    }
    Ok(es)
}

/// Handles `Delegate`: reads the payload, derives the target record from its seeds
/// and the buffer from the target, and proceeds as [`delegate_with`].
pub fn process_delegate(
    program_id: &Pubkey,
    delegation_program: &Pubkey,
    accounts: &[AccountView],
    instruction_data: &[u8],
    min_balance: u64,
) -> (r: Result<Vec<Effect>, ProgramError>)
    ensures
        accounts@.len() < 7 ==> r == Err::<Vec<Effect>, _>(ProgramError::NotEnoughAccountKeys),
        accounts@.len() >= 7 && !accounts@[0].is_signer ==> r == Err::<Vec<Effect>, _>(
            ProgramError::MissingRequiredSignature,
        ),
        accounts@.len() >= 7 && accounts@[0].is_signer ==> match delegate_ix_of(instruction_data@) {
            Err(e) => r == Err::<Vec<Effect>, _>(e),
            Ok((seeds, config)) => result_view(r) == delegate_spec(
                program_id@,
                delegation_program@,
                accounts@,
                seeds,
                config,
                program_address_of(seeds, program_id@),
                program_address_of(buffer_seeds_of(accounts@[1].key@), program_id@),
                min_balance,
            ),
        },
{
    if accounts.len() < 7 {
        return Err(ProgramError::NotEnoughAccountKeys);
    }
    if !accounts[0].is_signer {
        return Err(ProgramError::MissingRequiredSignature);
    }
    let (seeds, config) = deserialize_delegate_ix_data(instruction_data)?;
    proof {
        crate::codec::lemma_seed_list_fits(instruction_data@);
    }
    let target = derive_address(&seeds, program_id);
    let bseeds = buffer_seeds(&accounts[1].key);
    let buffer = derive_address(&bseeds, program_id);
    delegate_with(program_id, delegation_program, accounts, seeds, config, target, buffer, min_balance)
}

} // verus!

verus! {

/// What `Undelegate` does once its seeds are read and the record's derivation is
/// known. Accounts: payer, delegated record, owning program, buffer (signer),
/// system authority.
pub open spec fn undelegate_spec(
    accounts: Seq<AccountView>,
    seeds: Seq<Seq<u8>>,
    derived: Option<(Seq<u8>, u8)>,
    min_balance: u64,
) -> Result<Seq<EffectModel>, ProgramError> {
    if accounts.len() < 5 {
        Err(ProgramError::NotEnoughAccountKeys)
    } else if !accounts[3].is_signer {
        Err(ProgramError::MissingRequiredSignature)
    } else {
        match derived {
            None => Err(ProgramError::InvalidSeeds),
            Some((addr, bump)) => if addr != accounts[1].key@ {
                Err(ProgramError::Custom(MyProgramError::PdaMismatch))
            } else {
                Ok(
                    seq![
                        EffectModel::CreateAccount {
                            from: 0,
                            to: 1,
                            lamports: min_balance,
                            space: accounts[3].data@.len() as u64,
                            owner: accounts[2].key@,
                            signer: signer_seeds_of(seeds, bump),
                        },
                        EffectModel::CopyData { from: 3, to: 1 },
                    ],
                )
            },
        }
    }
}

/// `Undelegate` once the seeds are read and the derivation is known: recreates the
/// record at its derived address, the buffer's size and owned by the owning
/// program, and copies the buffer's bytes into it.
pub fn undelegate_with(
    accounts: &[AccountView],
    seeds: &Vec<Vec<u8>>,
    derived: Option<(Pubkey, u8)>,
    min_balance: u64,
) -> (r: Result<Vec<Effect>, ProgramError>)
    ensures
        result_view(r) == undelegate_spec(accounts@, seeds.deep_view(), derived_view(derived), min_balance),
{
    if accounts.len() < 5 {
        return Err(ProgramError::NotEnoughAccountKeys);
    }
    if !accounts[3].is_signer {
        return Err(ProgramError::MissingRequiredSignature);
    }
    let (addr, bump) = match derived {
        None => {
            return Err(ProgramError::InvalidSeeds);
        },
        Some(d) => d,
    };
    if !keys_equal(&addr, &accounts[1].key) {
        return Err(ProgramError::Custom(MyProgramError::PdaMismatch));
    }
    let signer = signer_seeds(seeds, bump);
    let mut es: Vec<Effect> = Vec::new();
    es.push(
        Effect::CreateAccount {
            from: 0,
            to: 1,
            lamports: min_balance,
            space: accounts[3].data.len() as u64,
            owner: accounts[2].key,
            signer,
        },
    );
    es.push(Effect::CopyData { from: 3, to: 1 });
    proof {
        assert(effects_view(es@) =~= undelegate_spec(
            accounts@,
            seeds.deep_view(),
            derived_view(derived),
            min_balance,
        ).unwrap());
    }
    Ok(es)
}

/// Handles `Undelegate`: reads the seeds, derives the record from them and
/// proceeds as [`undelegate_with`].
pub fn process_undelegate(
    program_id: &Pubkey,
    accounts: &[AccountView],
    data: &[u8],
    min_balance: u64,
) -> (r: Result<Vec<Effect>, ProgramError>)
    ensures
        accounts@.len() < 5 ==> r == Err::<Vec<Effect>, _>(ProgramError::NotEnoughAccountKeys),
        accounts@.len() >= 5 && !accounts@[3].is_signer ==> r == Err::<Vec<Effect>, _>(
            ProgramError::MissingRequiredSignature,
        ),
        accounts@.len() >= 5 && accounts@[3].is_signer ==> match undelegate_ix_of(data@) {
            Err(e) => r == Err::<Vec<Effect>, _>(e),
            Ok(seeds) => result_view(r) == undelegate_spec(
                accounts@,
                seeds,
                program_address_of(seeds, program_id@),
                min_balance,
            ),
        },
{
    if accounts.len() < 5 {
        return Err(ProgramError::NotEnoughAccountKeys);
    }
    if !accounts[3].is_signer {
        return Err(ProgramError::MissingRequiredSignature);
    }
    let seeds = deserialize_undelegate_ix_data(data)?;
    let derived = derive_address(&seeds, program_id);
    undelegate_with(accounts, &seeds, derived, min_balance)
}

/// A call that schedules a commit of delegated accounts.
#[derive(Debug, Clone, PartialEq, Eq)]
pub struct CommitIx {
    pub program_id: Pubkey,
    pub data: Vec<u8>,
    pub accounts: Vec<Meta>,
}

/// The payload of a commit call: 2 where the accounts are also to be undelegated,
/// else 1, as a little-endian `u32`.
pub open spec fn commit_data(allow_undelegation: bool) -> Seq<u8> {
    if allow_undelegation {
        seq![2u8, 0u8, 0u8, 0u8]
    } else {
        seq![1u8, 0u8, 0u8, 0u8]
    }
}

/// Builds the call that schedules a commit of `account_infos`: payer (writable,
/// signer), the context (writable), then each account (writable, signer).
pub fn create_schedule_commit_ix(
    payer: &AccountView,
    account_infos: &[AccountView],
    magic_context: &AccountView,
    magic_program: &AccountView,
    allow_undelegation: bool,
) -> (r: CommitIx)
    ensures
        r.program_id@ == magic_program.key@,
        r.data@ == commit_data(allow_undelegation),
        r.accounts@.len() == account_infos@.len() + 2,
        r.accounts@[0]@ == (payer.key@, true, true),
        r.accounts@[1]@ == (magic_context.key@, true, false),
        forall|i: int|
            0 <= i < account_infos@.len() ==> r.accounts@[i + 2]@ == (
                account_infos@[i].key@,
                true,
                true,
            ),
{
    let mut data: Vec<u8> = Vec::new();
    data.push(if allow_undelegation { 2u8 } else { 1u8 });
    data.push(0u8);
    data.push(0u8);
    data.push(0u8);
    assert(data@ =~= commit_data(allow_undelegation));
    let mut metas: Vec<Meta> = Vec::new();
    metas.push(Meta { key: payer.key, is_writable: true, is_signer: true });
    metas.push(Meta { key: magic_context.key, is_writable: true, is_signer: false });
    let mut i: usize = 0;
    while i < account_infos.len()
        invariant
            i <= account_infos@.len(),
            metas@.len() == i + 2,
            metas@[0]@ == (payer.key@, true, true),
            metas@[1]@ == (magic_context.key@, true, false),
            forall|j: int| 0 <= j < i ==> metas@[j + 2]@ == (account_infos@[j].key@, true, true),
        decreases account_infos@.len() - i,
    {
        metas.push(Meta { key: account_infos[i].key, is_writable: true, is_signer: true });
        i = i + 1;
    }
    CommitIx { program_id: magic_program.key, data, accounts: metas }
}

} // verus!

verus! {

/// Delegating a record and undelegating it with the same seeds gives the record
/// back: delegation stages a buffer of exactly the record's size, undelegation is
/// accepted exactly for the record's own derived address, and, where the buffer
/// handed back holds the bytes that the record held when it was delegated, the
/// record is recreated there with those very bytes, owned by the owning program,
/// exactly when the payer can fund it; otherwise nothing changes.
pub proof fn lemma_delegation_round_trip(
    program_id: Seq<u8>,
    delegation_program: Seq<u8>,
    delegated: Seq<AccountView>,
    seeds: Seq<Seq<u8>>,
    config: (u32, Option<Seq<u8>>),
    addr: Seq<u8>,
    bump: u8,
    buffer: Option<(Seq<u8>, u8)>,
    min_balance: u64,
    returned: Seq<AccountView>,
    return_balance: u64,
    st: Seq<LedgerAccount>,
)
    requires
        delegate_spec(
            program_id,
            delegation_program,
            delegated,
            seeds,
            config,
            Some((addr, bump)),
            buffer,
            min_balance,
        ) is Ok,
        returned.len() >= 5,
        returned[3].is_signer,
        st.len() == returned.len(),
        st[3].data == delegated[1].data@,
        returned[3].data@ == st[3].data,
        is_fresh(st[1]),
    ensures
        ({
            let d = delegate_spec(
                program_id,
                delegation_program,
                delegated,
                seeds,
                config,
                Some((addr, bump)),
                buffer,
                min_balance,
            ).unwrap();
            let r = undelegate_spec(returned, seeds, Some((addr, bump)), return_balance);
            &&& d[0] matches EffectModel::CreateAccount { to, space, .. } && to == 3 && space
                == delegated[1].data@.len() as u64
            &&& (r is Ok) == (returned[1].key@ == delegated[1].key@)
            &&& r is Ok ==> {
                let after = settle(st, r);
                let done = apply_effects(st, r.unwrap()) is Some;
                &&& returned[1].key@ == addr
                &&& done == (st[0].lamports >= return_balance)
                &&& !done ==> after == st
                &&& done ==> {
                    &&& after[1].data == delegated[1].data@
                    &&& after[1].data.len() == delegated[1].data@.len()
                    &&& after[1].owner == returned[2].key@
                    &&& after[1].lamports == return_balance
                }
            }
        }),
{
    reveal_with_fuel(apply_effects, 3);
    let r = undelegate_spec(returned, seeds, Some((addr, bump)), return_balance);
    if r is Ok {
        let es = r.unwrap();
        assert(es.drop_first().drop_first() =~= Seq::<EffectModel>::empty());
        vstd::std_specs::vec::axiom_spec_len(&returned[3].data);
    }
}

} // verus!
