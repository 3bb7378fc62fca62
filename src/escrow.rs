use vstd::prelude::*;

use crate::address::{derive_address, signer_seeds, signer_seeds_of};
use crate::codec::{keys_equal, le_u64, read_u64_le, Pubkey};
use crate::effects::{AccountView, Effect, EffectModel, effects_view, result_view};
use crate::error::{MyProgramError, ProgramError};
use crate::ledger::{apply_effects, fits_u64, is_fresh, settle, LedgerAccount};
use crate::state::{escrow_bytes, EscrowState, ESCROW_LEN};

verus! {

/// The fixed seed that starts every escrow record's seeds: the bytes of "escrow".
pub open spec fn escrow_tag() -> Seq<u8> {
    seq![101u8, 115u8, 99u8, 114u8, 111u8, 119u8]
}

/// The seeds of the escrow record of a maker.
pub open spec fn escrow_seeds_of(maker: Seq<u8>) -> Seq<Seq<u8>> {
    seq![escrow_tag(), maker]
}

/// Builds the seeds of the escrow record of a maker.
pub fn escrow_seeds(maker: &Pubkey) -> (r: Vec<Vec<u8>>)
    ensures
        r.deep_view() == escrow_seeds_of(maker@),
{
    let mut tag: Vec<u8> = Vec::new();
    tag.push(101u8);
    tag.push(115u8);
    tag.push(99u8);
    tag.push(114u8);
    tag.push(111u8);
    tag.push(119u8);
    assert(tag@ =~= escrow_tag());
    let mut m: Vec<u8> = Vec::new();
    crate::codec::push_all(&mut m, maker.as_slice());
    assert(m@ =~= maker@);
    let mut r: Vec<Vec<u8>> = Vec::new();
    r.push(tag);
    r.push(m);
    assert(r.deep_view()[0] == escrow_tag());
    assert(r.deep_view()[1] == maker@);
    assert(r.deep_view() =~= escrow_seeds_of(maker@));
    r
}

/// The payload of `MakeOffer`: a bump byte, then the amounts of X and Y as
/// little-endian 8-byte integers.
#[derive(Debug, Clone, Copy, PartialEq, Eq)]
pub struct MakeOfferIxData {
    pub bump: u8,
    pub amount_mint_x: [u8; 8],
    pub amount_mint_y: [u8; 8],
}

impl MakeOfferIxData {
    /// Reads the payload; it must hold at least 17 bytes.
    pub fn from_bytes(data: &[u8]) -> (r: Result<MakeOfferIxData, ProgramError>)
        ensures
            match r {
                Ok(d) => data@.len() >= 17 && d.bump == data@[0] && d.amount_mint_x@ == data@.subrange(1, 9)
                    && d.amount_mint_y@ == data@.subrange(9, 17),
                Err(e) => data@.len() < 17 && e == ProgramError::InvalidInstructionData,
            },
    {
        if data.len() < 17 {
            return Err(ProgramError::InvalidInstructionData);
        }
        let mut x: [u8; 8] = [0u8; 8];
        let mut y: [u8; 8] = [0u8; 8];
        let mut i: usize = 0;
        while i < 8
            invariant
                i <= 8,
                data@.len() >= 17,
                x@.len() == 8,
                y@.len() == 8,
                forall|j: int| 0 <= j < i ==> x@[j] == data@[1 + j] && y@[j] == data@[9 + j],
            decreases 8 - i,
        {
            x[i] = data[1 + i];
            y[i] = data[9 + i];
            i = i + 1;
        }
        assert(x@ =~= data@.subrange(1, 9));
        assert(y@ =~= data@.subrange(9, 17));
        Ok(MakeOfferIxData { bump: data[0], amount_mint_x: x, amount_mint_y: y })
    }

    /// The amount of X that the maker deposits.
    pub fn amount_x(&self) -> (r: u64)
        ensures
            r == le_u64(self.amount_mint_x@),
    {
        let r = read_u64_le(self.amount_mint_x.as_slice(), 0);
        assert(self.amount_mint_x@.subrange(0, 8) =~= self.amount_mint_x@);
        r
    }
}

/// What `MakeOffer` does, given where the maker's escrow record derives to.
/// Accounts: maker, mint X, mint Y, maker's X account, vault, escrow record,
/// system authority, asset program.
pub open spec fn make_offer_spec(
    program_id: Seq<u8>,
    accounts: Seq<AccountView>,
    data: Seq<u8>,
    derived: Option<(Seq<u8>, u8)>,
    min_balance: u64,
) -> Result<Seq<EffectModel>, ProgramError> {
    if accounts.len() < 8 {
        Err(ProgramError::NotEnoughAccountKeys)
    } else if !accounts[0].is_signer {
        Err(ProgramError::MissingRequiredSignature)
    } else if data.len() < 17 {
        Err(ProgramError::InvalidInstructionData)
    } else {
        match derived {
            None => Err(ProgramError::InvalidSeeds),
            Some((addr, bump)) => if accounts[5].key@ != addr {
                Err(ProgramError::Custom(MyProgramError::PdaMismatch))
            } else {
                Ok(
                    seq![
                        EffectModel::CreateAccount {
                            from: 0,
                            to: 5,
                            lamports: min_balance,
                            space: ESCROW_LEN as u64,
                            owner: program_id,
                            signer: signer_seeds_of(escrow_seeds_of(accounts[0].key@), bump),
                        },
                        EffectModel::InitializeEscrow {
                            account: 5,
                            bytes: escrow_bytes(
                                accounts[0].key@,
                                accounts[1].key@,
                                accounts[2].key@,
                                data.subrange(9, 17),
                                bump,
                            ),
                        },
                        EffectModel::TokenTransfer {
                            from: 3,
                            to: 4,
                            authority: 0,
                            amount: le_u64(data.subrange(1, 9)) as u64,
                            signer: Seq::empty(),
                        },
                    ],
                )
            },
        }
    }
}

/// `MakeOffer` once the escrow record's derivation is known: checks the accounts
/// and the payload, then creates the record, writes it and moves the deposit of X
/// into the vault.
pub fn make_offer_with(
    program_id: &Pubkey,
    accounts: &[AccountView],
    data: &[u8],
    derived: Option<(Pubkey, u8)>,
    min_balance: u64,
) -> (r: Result<Vec<Effect>, ProgramError>)
    ensures
        result_view(r) == make_offer_spec(
            program_id@,
            accounts@,
            data@,
            crate::address::derived_view(derived),
            min_balance,
        ),
{
    if accounts.len() < 8 {
        return Err(ProgramError::NotEnoughAccountKeys);
    }
    let maker = &accounts[0];
    if !maker.is_signer {
        return Err(ProgramError::MissingRequiredSignature);
    }
    let ix = MakeOfferIxData::from_bytes(data)?;
    let (addr, bump) = match derived {
        None => {
            return Err(ProgramError::InvalidSeeds);
        },
        Some(d) => d,
    };
    if !keys_equal(&accounts[5].key, &addr) {
        return Err(ProgramError::Custom(MyProgramError::PdaMismatch));
    }
    let seeds = escrow_seeds(&maker.key);
    let signer = signer_seeds(&seeds, bump);
    let amount_x = ix.amount_x();
    let state = EscrowState {
        maker: maker.key,
        mint_x: accounts[1].key,
        mint_y: accounts[2].key,
        amount: ix.amount_mint_y,
        bump,
    };
    let no_signer: Vec<Vec<u8>> = Vec::new();
    assert(no_signer.deep_view() =~= Seq::<Seq<u8>>::empty());
    let mut es: Vec<Effect> = Vec::new();
    es.push(
        Effect::CreateAccount {
            from: 0,
            to: 5,
            lamports: min_balance,
            space: ESCROW_LEN as u64,
            owner: *program_id,
            signer,
        },
    );
    es.push(Effect::InitializeEscrow { account: 5, state });
    es.push(
        Effect::TokenTransfer { from: 3, to: 4, authority: 0, amount: amount_x, signer: no_signer },
    );
    proof {
        assert(effects_view(es@) =~= make_offer_spec(
            program_id@,
            accounts@,
            data@,
            crate::address::derived_view(derived),
            min_balance,
        ).unwrap());
    }
    Ok(es)
}

/// Handles `MakeOffer`: derives the maker's escrow record and proceeds as
/// [`make_offer_with`].
pub fn process_make_offer_instruction(
    program_id: &Pubkey,
    accounts: &[AccountView],
    data: &[u8],
    min_balance: u64,
) -> (r: Result<Vec<Effect>, ProgramError>)
    ensures
        accounts@.len() >= 8 ==> result_view(r) == make_offer_spec(
            program_id@,
            accounts@,
            data@,
            crate::address::program_address_of(escrow_seeds_of(accounts@[0].key@), program_id@),
            min_balance,
        ),
        accounts@.len() < 8 ==> r == Err::<Vec<Effect>, _>(ProgramError::NotEnoughAccountKeys),
{
    if accounts.len() < 8 {
        return Err(ProgramError::NotEnoughAccountKeys);
    }
    let seeds = escrow_seeds(&accounts[0].key);
    let derived = derive_address(&seeds, program_id);
    make_offer_with(program_id, accounts, data, derived, min_balance)
}

} // verus!

verus! {

/// What `TakeOffer` does, given where the maker's escrow record derives to and the
/// vault's balance of X. Accounts: taker, maker, mint X, mint Y, taker's X account,
/// taker's Y account, maker's Y account, vault, escrow record, system authority,
/// asset program.
pub open spec fn take_offer_spec(
    program_id: Seq<u8>,
    accounts: Seq<AccountView>,
    derived: Option<(Seq<u8>, u8)>,
    vault_amount: u64,
) -> Result<Seq<EffectModel>, ProgramError> {
    if accounts.len() < 11 {
        Err(ProgramError::NotEnoughAccountKeys)
    } else if !accounts[0].is_signer {
        Err(ProgramError::MissingRequiredSignature)
    } else if accounts[8].owner@ != program_id {
        Err(ProgramError::Custom(MyProgramError::InvalidOwner))
    } else if accounts[8].data@.len() != ESCROW_LEN {
        Err(ProgramError::Custom(MyProgramError::DeserializationFailed))
    } else if accounts[8].data@.subrange(32, 64) != accounts[2].key@
        || accounts[8].data@.subrange(64, 96) != accounts[3].key@ {
        Err(ProgramError::InvalidAccountData)
    } else {
        let bump = accounts[8].data@[104];
        match derived {
            None => Err(ProgramError::InvalidSeeds),
            Some((addr, b)) => if addr != accounts[8].key@ || b != bump {
                Err(ProgramError::Custom(MyProgramError::PdaMismatch))
            } else {
                let signer = signer_seeds_of(escrow_seeds_of(accounts[1].key@), bump);
                Ok(
                    seq![
                        EffectModel::TokenTransfer {
                            from: 5,
                            to: 6,
                            authority: 0,
                            amount: le_u64(accounts[8].data@.subrange(96, 104)) as u64,
                            signer: Seq::empty(),
                        },
                        EffectModel::TokenTransfer {
                            from: 7,
                            to: 4,
                            authority: 8,
                            amount: vault_amount,
                            signer: signer,
                        },
                        EffectModel::CloseTokenAccount {
                            account: 7,
                            destination: 0,
                            authority: 8,
                            signer: signer,
                        },
                        EffectModel::CloseRecord { account: 8, destination: 1, system: 9 },
                    ],
                )
            },
        }
    }
}

/// `TakeOffer` once the escrow record's derivation is known: checks the record and
/// the mints, then the taker pays Y to the maker, the vault's X goes to the taker,
/// the emptied vault is closed in the taker's favour and the record in the maker's.
pub fn take_offer_with(
    program_id: &Pubkey,
    accounts: &[AccountView],
    derived: Option<(Pubkey, u8)>,
    vault_amount: u64,
) -> (r: Result<Vec<Effect>, ProgramError>)
    ensures
        result_view(r) == take_offer_spec(
            program_id@,
            accounts@,
            crate::address::derived_view(derived),
            vault_amount,
        ),
{
    if accounts.len() < 11 {
        return Err(ProgramError::NotEnoughAccountKeys);
    }
    if !accounts[0].is_signer {
        return Err(ProgramError::MissingRequiredSignature);
    }
    let escrow_acc = &accounts[8];
    if !keys_equal(&escrow_acc.owner, program_id) {
        return Err(ProgramError::Custom(MyProgramError::InvalidOwner));
    }
    let st = match EscrowState::from_bytes(escrow_acc.data.as_slice()) {
        Ok(s) => s,
        Err(e) => {
            return Err(ProgramError::from(e));
        },
    };
    proof {
        crate::state::lemma_escrow_fields(st);
    }
    if !keys_equal(&st.mint_x, &accounts[2].key) || !keys_equal(&st.mint_y, &accounts[3].key) {
        return Err(ProgramError::InvalidAccountData);
    }
    let (addr, b) = match derived {
        None => {
            return Err(ProgramError::InvalidSeeds);
        },
        Some(d) => d,
    };
    if !keys_equal(&addr, &escrow_acc.key) || b != st.bump {
        return Err(ProgramError::Custom(MyProgramError::PdaMismatch));
    }
    let seeds = escrow_seeds(&accounts[1].key);
    let signer = signer_seeds(&seeds, st.bump);
    let amount_y = read_u64_le(st.amount.as_slice(), 0);
    assert(st.amount@.subrange(0, 8) =~= st.amount@);
    let no_signer: Vec<Vec<u8>> = Vec::new();
    assert(no_signer.deep_view() =~= Seq::<Seq<u8>>::empty());
    let mut es: Vec<Effect> = Vec::new();
    es.push(Effect::TokenTransfer { from: 5, to: 6, authority: 0, amount: amount_y, signer: no_signer });
    es.push(
        Effect::TokenTransfer { from: 7, to: 4, authority: 8, amount: vault_amount, signer: signer.clone() },
    );
    es.push(Effect::CloseTokenAccount { account: 7, destination: 0, authority: 8, signer: signer });
    es.push(Effect::CloseRecord { account: 8, destination: 1, system: 9 });
    proof {
        assert(effects_view(es@) =~= take_offer_spec(
            program_id@,
            accounts@,
            crate::address::derived_view(derived),
            vault_amount,
        ).unwrap());
    }
    Ok(es)
}

/// Handles `TakeOffer`: derives the maker's escrow record and proceeds as
/// [`take_offer_with`].
pub fn process_take_offer_instruction(
    program_id: &Pubkey,
    accounts: &[AccountView],
    vault_amount: u64,
) -> (r: Result<Vec<Effect>, ProgramError>)
    ensures
        accounts@.len() >= 11 ==> result_view(r) == take_offer_spec(
            program_id@,
            accounts@,
            crate::address::program_address_of(escrow_seeds_of(accounts@[1].key@), program_id@),
            vault_amount,
        ),
        accounts@.len() < 11 ==> r == Err::<Vec<Effect>, _>(ProgramError::NotEnoughAccountKeys),
{
    if accounts.len() < 11 {
        return Err(ProgramError::NotEnoughAccountKeys);
    }
    let seeds = escrow_seeds(&accounts[1].key);
    let derived = derive_address(&seeds, program_id);
    take_offer_with(program_id, accounts, derived, vault_amount)
}

} // verus!

verus! {

/// What `RefundOffer` does, given where the signer's escrow record derives to and
/// the vault's balance of X. Accounts: maker, mint X, maker's X account, vault,
/// escrow record, system authority, asset program.
pub open spec fn refund_offer_spec(
    program_id: Seq<u8>,
    accounts: Seq<AccountView>,
    derived: Option<(Seq<u8>, u8)>,
    vault_amount: u64,
) -> Result<Seq<EffectModel>, ProgramError> {
    if accounts.len() < 7 {
        Err(ProgramError::NotEnoughAccountKeys)
    } else if !accounts[0].is_signer {
        Err(ProgramError::MissingRequiredSignature)
    } else if accounts[4].data@.len() == 0 {
        Err(ProgramError::Custom(MyProgramError::AccountEmpty))
    } else if accounts[4].owner@ != program_id {
        Err(ProgramError::Custom(MyProgramError::InvalidOwner))
    } else if accounts[4].data@.len() != ESCROW_LEN {
        Err(ProgramError::Custom(MyProgramError::DeserializationFailed))
    } else if accounts[4].data@.subrange(0, 32) != accounts[0].key@ {
        Err(ProgramError::Custom(MyProgramError::InvalidOwner))
    } else if accounts[4].data@.subrange(32, 64) != accounts[1].key@ {
        Err(ProgramError::InvalidAccountData)
    } else {
        let bump = accounts[4].data@[104];
        match derived {
            None => Err(ProgramError::InvalidSeeds),
            Some((addr, b)) => if addr != accounts[4].key@ || b != bump {
                Err(ProgramError::Custom(MyProgramError::PdaMismatch))
            } else {
                let signer = signer_seeds_of(escrow_seeds_of(accounts[0].key@), bump);
                Ok(
                    seq![
                        EffectModel::TokenTransfer {
                            from: 3,
                            to: 2,
                            authority: 4,
                            amount: vault_amount,
                            signer: signer,
                        },
                        EffectModel::CloseTokenAccount {
                            account: 3,
                            destination: 0,
                            authority: 4,
                            signer: signer,
                        },
                        EffectModel::CloseRecord { account: 4, destination: 0, system: 5 },
                    ],
                )
            },
        }
    }
}

/// `RefundOffer` once the escrow record's derivation is known: checks that the
/// signer made the offer, then the vault's X returns to the maker and the vault
/// and the record are closed in the maker's favour.
pub fn refund_offer_with(
    program_id: &Pubkey,
    accounts: &[AccountView],
    derived: Option<(Pubkey, u8)>,
    vault_amount: u64,
) -> (r: Result<Vec<Effect>, ProgramError>)
    ensures
        result_view(r) == refund_offer_spec(
            program_id@,
            accounts@,
            crate::address::derived_view(derived),
            vault_amount,
        ),
{
    if accounts.len() < 7 {
        return Err(ProgramError::NotEnoughAccountKeys);
    }
    if !accounts[0].is_signer {
        return Err(ProgramError::MissingRequiredSignature);
    }
    let escrow_acc = &accounts[4];
    if escrow_acc.data.len() == 0 {
        return Err(ProgramError::Custom(MyProgramError::AccountEmpty));
    }
    if !keys_equal(&escrow_acc.owner, program_id) {
        return Err(ProgramError::Custom(MyProgramError::InvalidOwner));
    }
    let st = match EscrowState::from_bytes(escrow_acc.data.as_slice()) {
        Ok(s) => s,
        Err(e) => {
            return Err(ProgramError::from(e));
        },
    };
    proof {
        crate::state::lemma_escrow_fields(st);
    }
    if !keys_equal(&st.maker, &accounts[0].key) {
        return Err(ProgramError::Custom(MyProgramError::InvalidOwner));
    }
    if !keys_equal(&st.mint_x, &accounts[1].key) {
        return Err(ProgramError::InvalidAccountData);
    }
    let (addr, b) = match derived {
        None => {
            return Err(ProgramError::InvalidSeeds);
        },
        Some(d) => d,
    };
    if !keys_equal(&addr, &escrow_acc.key) || b != st.bump {
        return Err(ProgramError::Custom(MyProgramError::PdaMismatch));
    }
    let seeds = escrow_seeds(&accounts[0].key);
    let signer = signer_seeds(&seeds, st.bump);
    let mut es: Vec<Effect> = Vec::new();
    es.push(
        Effect::TokenTransfer { from: 3, to: 2, authority: 4, amount: vault_amount, signer: signer.clone() },
    );
    es.push(Effect::CloseTokenAccount { account: 3, destination: 0, authority: 4, signer: signer });
    es.push(Effect::CloseRecord { account: 4, destination: 0, system: 5 });
    proof {
        assert(effects_view(es@) =~= refund_offer_spec(
            program_id@,
            accounts@,
            crate::address::derived_view(derived),
            vault_amount,
        ).unwrap());
    }
    Ok(es)
}

/// Handles `RefundOffer`: derives the signer's escrow record and proceeds as
/// [`refund_offer_with`].
pub fn process_refund_offer_instruction(
    program_id: &Pubkey,
    accounts: &[AccountView],
    vault_amount: u64,
) -> (r: Result<Vec<Effect>, ProgramError>)
    ensures
        accounts@.len() >= 7 ==> result_view(r) == refund_offer_spec(
            program_id@,
            accounts@,
            crate::address::program_address_of(escrow_seeds_of(accounts@[0].key@), program_id@),
            vault_amount,
        ),
        accounts@.len() < 7 ==> r == Err::<Vec<Effect>, _>(ProgramError::NotEnoughAccountKeys),
{
    if accounts.len() < 7 {
        return Err(ProgramError::NotEnoughAccountKeys);
    }
    let seeds = escrow_seeds(&accounts[0].key);
    let derived = derive_address(&seeds, program_id);
    refund_offer_with(program_id, accounts, derived, vault_amount)
}

} // verus!

verus! {

/// An instruction's effects are carried out: the host refuses none of them.
pub open spec fn carried_out(st: Seq<LedgerAccount>, r: Result<Seq<EffectModel>, ProgramError>) -> bool {
    r is Ok && apply_effects(st, r.unwrap()) is Some
}

/// `MakeOffer` for a fresh record at the derived address is accepted, and the host
/// carries it out exactly when the maker can fund the record and holds the
/// deposit of X (and the vault can take it). Then exactly one escrow record is
/// created there, holding the maker, both mints, the amount of Y asked for and the
/// bump, funded with the minimum balance by the maker; exactly the deposit moves
/// from the maker's X account to the vault; nothing else changes; and another
/// `MakeOffer` for the same record is refused by the host. Otherwise nothing changes.
pub proof fn lemma_make_offer_creates_one_record(
    program_id: Seq<u8>,
    accounts: Seq<AccountView>,
    data: Seq<u8>,
    addr: Seq<u8>,
    bump: u8,
    min_balance: u64,
    st: Seq<LedgerAccount>,
)
    requires
        accounts.len() >= 8,
        accounts[0].is_signer,
        data.len() >= 17,
        accounts[5].key@ == addr,
        st.len() == accounts.len(),
        is_fresh(st[5]),
    ensures
        ({
            let r = make_offer_spec(program_id, accounts, data, Some((addr, bump)), min_balance);
            let deposit = le_u64(data.subrange(1, 9));
            let after = settle(st, r);
            &&& r is Ok
            &&& carried_out(st, r) == (st[0].lamports >= min_balance && st[3].tokens >= deposit
                && fits_u64((st[4].tokens + deposit) as nat))
            &&& !carried_out(st, r) ==> after == st
            &&& carried_out(st, r) ==> {
                &&& after.len() == st.len()
                &&& after[5].data == escrow_bytes(
                    accounts[0].key@,
                    accounts[1].key@,
                    accounts[2].key@,
                    data.subrange(9, 17),
                    bump,
                )
                &&& after[5].owner == program_id
                &&& after[5].lamports == min_balance
                &&& after[0].lamports == st[0].lamports - min_balance
                &&& after[3].tokens == st[3].tokens - deposit
                &&& after[4].tokens == st[4].tokens + deposit
                &&& forall|i: int|
                    0 <= i < st.len() && i != 0 && i != 3 && i != 4 && i != 5 ==> after[i] == st[i]
                &&& forall|data2: Seq<u8>, bump2: u8, min_balance2: u64|
                    #[trigger] make_offer_spec(program_id, accounts, data2, Some((addr, bump2)), min_balance2)
                        is Ok ==> apply_effects(
                        after,
                        make_offer_spec(program_id, accounts, data2, Some((addr, bump2)), min_balance2).unwrap(),
                    ) is None
            }
        }),
{
    reveal_with_fuel(apply_effects, 4);
    let r = make_offer_spec(program_id, accounts, data, Some((addr, bump)), min_balance);
    let es = r.unwrap();
    assert(es.drop_first().drop_first().drop_first() =~= Seq::<EffectModel>::empty());
    let after = settle(st, r);
    if carried_out(st, r) {
        assert(after[5].data.len() == ESCROW_LEN);
        assert forall|data2: Seq<u8>, bump2: u8, min_balance2: u64|
            #[trigger] make_offer_spec(program_id, accounts, data2, Some((addr, bump2)), min_balance2) is Ok
                implies apply_effects(
                after,
                make_offer_spec(program_id, accounts, data2, Some((addr, bump2)), min_balance2).unwrap(),
            ) is None by {
            assert(!is_fresh(after[5]));
        }
    }
}

/// `TakeOffer` of an open offer is accepted, and the host carries it out exactly
/// when the taker holds the price in Y and no balance would pass the largest 64-bit
/// value. Then the taker pays exactly the price in Y to the maker and receives the
/// vault's whole balance of X; the emptied vault is closed in the taker's favour;
/// the escrow record is closed and the maker gains exactly its reclaimed balance;
/// no other account changes. Otherwise nothing changes at all.
pub proof fn lemma_take_offer_settles(
    program_id: Seq<u8>,
    accounts: Seq<AccountView>,
    vault_amount: u64,
    st: Seq<LedgerAccount>,
)
    requires
        accounts.len() >= 11,
        accounts[0].is_signer,
        accounts[8].owner@ == program_id,
        accounts[8].data@.len() == ESCROW_LEN,
        accounts[8].data@.subrange(32, 64) == accounts[2].key@,
        accounts[8].data@.subrange(64, 96) == accounts[3].key@,
        st.len() == accounts.len(),
        st[7].tokens == vault_amount,
    ensures
        ({
            let derived = Some((accounts[8].key@, accounts[8].data@[104]));
            let r = take_offer_spec(program_id, accounts, derived, vault_amount);
            let price = le_u64(accounts[8].data@.subrange(96, 104));
            let after = settle(st, r);
            &&& r is Ok
            &&& carried_out(st, r) == (st[5].tokens >= price && fits_u64((st[6].tokens + price) as nat)
                && fits_u64((st[4].tokens + vault_amount) as nat) && fits_u64(
                (st[0].lamports + st[7].lamports) as nat,
            ) && fits_u64((st[1].lamports + st[8].lamports) as nat))
            &&& !carried_out(st, r) ==> after == st
            &&& carried_out(st, r) ==> {
                &&& after.len() == st.len()
                &&& after[5].tokens == st[5].tokens - price
                &&& after[6].tokens == st[6].tokens + price
                &&& after[4].tokens == st[4].tokens + vault_amount
                &&& after[7].tokens == 0 && after[7].lamports == 0 && after[7].data.len() == 0
                &&& after[0].lamports == st[0].lamports + st[7].lamports
                &&& after[8].lamports == 0 && after[8].data.len() == 0 && after[8].owner == st[9].key
                &&& after[1].lamports == st[1].lamports + st[8].lamports
                &&& after[1].tokens == st[1].tokens
                &&& forall|i: int|
                    0 <= i < st.len() && i != 0 && i != 1 && i != 4 && i != 5 && i != 6 && i != 7 && i
                        != 8 ==> after[i] == st[i]
            }
        }),
{
    reveal_with_fuel(apply_effects, 5);
    let derived = Some((accounts[8].key@, accounts[8].data@[104]));
    let es = take_offer_spec(program_id, accounts, derived, vault_amount).unwrap();
    assert(es.drop_first().drop_first().drop_first().drop_first() =~= Seq::<EffectModel>::empty());
}

/// `RefundOffer` by the maker is accepted, and the host carries it out exactly when
/// no balance would pass the largest 64-bit value. Then the vault's whole balance of
/// X returns to the maker's X account, the vault and the escrow record are closed in
/// the maker's favour, and no other account changes, so no balance of Y changes.
/// Otherwise nothing changes at all.
pub proof fn lemma_refund_returns_deposit(
    program_id: Seq<u8>,
    accounts: Seq<AccountView>,
    vault_amount: u64,
    st: Seq<LedgerAccount>,
)
    requires
        accounts.len() >= 7,
        accounts[0].is_signer,
        accounts[4].owner@ == program_id,
        accounts[4].data@.len() == ESCROW_LEN,
        accounts[4].data@.subrange(0, 32) == accounts[0].key@,
        accounts[4].data@.subrange(32, 64) == accounts[1].key@,
        st.len() == accounts.len(),
        st[3].tokens == vault_amount,
    ensures
        ({
            let derived = Some((accounts[4].key@, accounts[4].data@[104]));
            let r = refund_offer_spec(program_id, accounts, derived, vault_amount);
            let after = settle(st, r);
            &&& r is Ok
            &&& carried_out(st, r) == (fits_u64((st[2].tokens + vault_amount) as nat) && fits_u64(
                (st[0].lamports + st[3].lamports + st[4].lamports) as nat,
            ))
            &&& !carried_out(st, r) ==> after == st
            &&& carried_out(st, r) ==> {
                &&& after.len() == st.len()
                &&& after[2].tokens == st[2].tokens + vault_amount
                &&& after[3].tokens == 0 && after[3].lamports == 0 && after[3].data.len() == 0
                &&& after[4].lamports == 0 && after[4].data.len() == 0 && after[4].owner == st[5].key
                &&& after[0].lamports == st[0].lamports + st[3].lamports + st[4].lamports
                &&& after[0].tokens == st[0].tokens
                &&& forall|i: int|
                    0 <= i < st.len() && i != 0 && i != 2 && i != 3 && i != 4 ==> after[i] == st[i]
            }
        }),
{
    reveal_with_fuel(apply_effects, 4);
    let derived = Some((accounts[4].key@, accounts[4].data@[104]));
    let es = refund_offer_spec(program_id, accounts, derived, vault_amount).unwrap();
    assert(es.drop_first().drop_first().drop_first() =~= Seq::<EffectModel>::empty());
}

/// `RefundOffer` signed by anyone but the record's maker is refused: for lack of a
/// signature, or as an owner mismatch.
pub proof fn lemma_refund_by_non_maker_fails(
    program_id: Seq<u8>,
    accounts: Seq<AccountView>,
    derived: Option<(Seq<u8>, u8)>,
    vault_amount: u64,
)
    requires
        accounts.len() >= 7,
        accounts[4].owner@ == program_id,
        accounts[4].data@.len() == ESCROW_LEN,
        accounts[4].data@.subrange(0, 32) != accounts[0].key@,
    ensures
        refund_offer_spec(program_id, accounts, derived, vault_amount) == Err::<Seq<EffectModel>, _>(
            ProgramError::MissingRequiredSignature,
        ) || refund_offer_spec(program_id, accounts, derived, vault_amount) == Err::<
            Seq<EffectModel>,
            _,
        >(ProgramError::Custom(MyProgramError::InvalidOwner)),
{
}

} // verus!
