use vstd::prelude::*;

use crate::codec::Pubkey;
use crate::error::ProgramError;
use crate::state::EscrowState;

verus! {

/// An account reference in a cross-call: identity, writable, signer.
#[derive(Debug, Clone, Copy, PartialEq, Eq)]
pub struct Meta {
    pub key: Pubkey,
    pub is_writable: bool,
    pub is_signer: bool,
}

impl View for Meta {
    type V = (Seq<u8>, bool, bool);

    open spec fn view(&self) -> (Seq<u8>, bool, bool) {
        (self.key@, self.is_writable, self.is_signer)
    }
}

/// One step that an accepted instruction asks the host to carry out. Accounts are
/// named by their position in the instruction's account list; an empty `signer`
/// means that no derived record signs the step.
#[derive(Debug, Clone, PartialEq, Eq)]
pub enum Effect {
    /// Creates `to`, funded by `from`, with `space` zeroed bytes, owned by `owner`.
    CreateAccount { from: usize, to: usize, lamports: u64, space: u64, owner: Pubkey, signer: Vec<Vec<u8>> },
    /// Writes a new escrow record into `account`.
    InitializeEscrow { account: usize, state: EscrowState },
    /// Moves `amount` of an asset between two asset accounts.
    TokenTransfer { from: usize, to: usize, authority: usize, amount: u64, signer: Vec<Vec<u8>> },
    /// Closes an empty asset account and pays its balance to `destination`.
    CloseTokenAccount { account: usize, destination: usize, authority: usize, signer: Vec<Vec<u8>> },
    /// Pays all of a program-owned record's balance to `destination`, empties its
    /// data and hands it back to the system authority.
    CloseRecord { account: usize, destination: usize, system: usize },
    /// Calls another program with these account references and this payload.
    Invoke { program_id: Pubkey, metas: Vec<Meta>, data: Vec<u8>, accounts: Vec<usize>, signer: Vec<Vec<u8>> },
    /// Copies all of `from`'s data into `to`, which has the same size.
    CopyData { from: usize, to: usize },
}

/// The mathematical form of an [`Effect`].
pub enum EffectModel {
    CreateAccount { from: usize, to: usize, lamports: u64, space: u64, owner: Seq<u8>, signer: Seq<Seq<u8>> },
    InitializeEscrow { account: usize, bytes: Seq<u8> },
    TokenTransfer { from: usize, to: usize, authority: usize, amount: u64, signer: Seq<Seq<u8>> },
    CloseTokenAccount { account: usize, destination: usize, authority: usize, signer: Seq<Seq<u8>> },
    CloseRecord { account: usize, destination: usize, system: usize },
    Invoke { program_id: Seq<u8>, metas: Seq<(Seq<u8>, bool, bool)>, data: Seq<u8>, accounts: Seq<usize>, signer: Seq<Seq<u8>> },
    CopyData { from: usize, to: usize },
}

impl View for Effect {
    type V = EffectModel;

    open spec fn view(&self) -> EffectModel {
        match self {
            Effect::CreateAccount { from, to, lamports, space, owner, signer } => EffectModel::CreateAccount {
                from: *from,
                to: *to,
                lamports: *lamports,
                space: *space,
                owner: owner@,
                signer: signer.deep_view(),
            },
            Effect::InitializeEscrow { account, state } => EffectModel::InitializeEscrow {
                account: *account,
                bytes: state.spec_bytes(),
            },
            Effect::TokenTransfer { from, to, authority, amount, signer } => EffectModel::TokenTransfer {
                from: *from,
                to: *to,
                authority: *authority,
                amount: *amount,
                signer: signer.deep_view(),
            },
            Effect::CloseTokenAccount { account, destination, authority, signer } => EffectModel::CloseTokenAccount {
                account: *account,
                destination: *destination,
                authority: *authority,
                signer: signer.deep_view(),
            },
            Effect::CloseRecord { account, destination, system } => EffectModel::CloseRecord {
                account: *account,
                destination: *destination,
                system: *system,
            },
            Effect::Invoke { program_id, metas, data, accounts, signer } => EffectModel::Invoke {
                program_id: program_id@,
                metas: metas@.map_values(|m: Meta| m@),
                data: data@,
                accounts: accounts@,
                signer: signer.deep_view(),
            },
            Effect::CopyData { from, to } => EffectModel::CopyData { from: *from, to: *to },
        }
    }
}

/// The views of a list of effects.
pub open spec fn effects_view(es: Seq<Effect>) -> Seq<EffectModel> {
    es.map_values(|e: Effect| e@)
}

/// The view of a handler's result.
pub open spec fn result_view(r: Result<Vec<Effect>, ProgramError>) -> Result<Seq<EffectModel>, ProgramError> {
    match r {
        Ok(es) => Ok(effects_view(es@)),
        Err(e) => Err(e),
    }
}

/// What an instruction handler is given of each account: identity, owner,
/// native balance, data and whether it signed.
#[derive(Debug, Clone, PartialEq, Eq)]
pub struct AccountView {
    pub key: Pubkey,
    pub owner: Pubkey,
    pub lamports: u64,
    pub data: Vec<u8>,
    pub is_signer: bool,
}

} // verus!
