use vstd::prelude::*;

use crate::effects::EffectModel;

verus! {

/// An account as the host keeps it, for reasoning about what an instruction's
/// effects do: identity, owner, native balance, data, and asset balance where it
/// is an asset account.
pub struct LedgerAccount {
    pub key: Seq<u8>,
    pub owner: Seq<u8>,
    pub lamports: nat,
    pub data: Seq<u8>,
    pub tokens: nat,
}

/// An account that nothing has created yet: no balance and no data.
pub open spec fn is_fresh(a: LedgerAccount) -> bool {
    a.lamports == 0 && a.data.len() == 0
}

/// Whether a balance can be held: no more than the largest 64-bit value.
pub open spec fn fits_u64(v: nat) -> bool {
    v <= u64::MAX
}

/// One effect carried out on the accounts of an instruction, in the order the
/// instruction lists them; nothing where the host would refuse it, including any
/// credit that would take a balance past the largest 64-bit value. A call to another
/// program leaves these accounts as they are: what the called program does to its
/// own records is its own affair.
pub open spec fn apply_effect(st: Seq<LedgerAccount>, e: EffectModel) -> Option<Seq<LedgerAccount>> {
    match e {
        EffectModel::CreateAccount { from, to, lamports, space, owner, .. } => {
            if from >= st.len() || to >= st.len() || from == to || !is_fresh(st[to as int])
                || st[from as int].lamports < lamports {
                None
            } else {
                let f = st[from as int];
                let t = st[to as int];
                Some(
                    st.update(from as int, LedgerAccount { lamports: (f.lamports - lamports) as nat, ..f }).update(
                        to as int,
                        LedgerAccount {
                            lamports: lamports as nat,
                            data: Seq::new(space as nat, |i: int| 0u8),
                            owner: owner,
                            ..t
                        },
                    ),
                )
            }
        },
        EffectModel::InitializeEscrow { account, bytes } => {
            if account >= st.len() || st[account as int].data.len() != bytes.len() {
                None
            } else {
                Some(st.update(account as int, LedgerAccount { data: bytes, ..st[account as int] }))
            }
        },
        EffectModel::TokenTransfer { from, to, amount, .. } => {
            if from >= st.len() || to >= st.len() || from == to || st[from as int].tokens < amount
                || !fits_u64((st[to as int].tokens + amount) as nat) {
                None
            } else {
                let f = st[from as int];
                let t = st[to as int];
                Some(
                    st.update(from as int, LedgerAccount { tokens: (f.tokens - amount) as nat, ..f }).update(
                        to as int,
                        LedgerAccount { tokens: (t.tokens + amount) as nat, ..t },
                    ),
                )
            }
        },
        EffectModel::CloseTokenAccount { account, destination, .. } => {
            if account >= st.len() || destination >= st.len() || account == destination
                || st[account as int].tokens != 0 || !fits_u64(
                st[destination as int].lamports + st[account as int].lamports,
            ) {
                None
            } else {
                let a = st[account as int];
                let d = st[destination as int];
                Some(
                    st.update(account as int, LedgerAccount { lamports: 0, data: Seq::empty(), ..a }).update(
                        destination as int,
                        LedgerAccount { lamports: (d.lamports + a.lamports) as nat, ..d },
                    ),
                )
            }
        },
        EffectModel::CloseRecord { account, destination, system } => {
            if account >= st.len() || destination >= st.len() || system >= st.len() || account
                == destination || !fits_u64(
                st[destination as int].lamports + st[account as int].lamports,
            ) {
                None
            } else {
                let a = st[account as int];
                let d = st[destination as int];
                Some(
                    st.update(
                        account as int,
                        LedgerAccount {
                            lamports: 0,
                            data: Seq::empty(),
                            owner: st[system as int].key,
                            ..a
                        },
                    ).update(destination as int, LedgerAccount { lamports: (d.lamports + a.lamports) as nat, ..d }),
                )
            }
        },
        EffectModel::Invoke { .. } => Some(st),
        EffectModel::CopyData { from, to } => {
            if from >= st.len() || to >= st.len() || st[from as int].data.len() != st[to as int].data.len() {
                None
            } else {
                Some(st.update(to as int, LedgerAccount { data: st[from as int].data, ..st[to as int] }))
            }
        },
    }
}

/// The effects carried out one after another; nothing where any is refused.
pub open spec fn apply_effects(st: Seq<LedgerAccount>, es: Seq<EffectModel>) -> Option<Seq<LedgerAccount>>
    decreases es.len(),
{
    if es.len() == 0 {
        Some(st)
    } else {
        match apply_effect(st, es[0]) {
            Some(next) => apply_effects(next, es.drop_first()),
            None => None,
        }
    }
}

/// The accounts after an instruction: all of its effects where the handler accepts
/// it and the host carries them all out, else the accounts as they were.
pub open spec fn settle(
    st: Seq<LedgerAccount>,
    r: Result<Seq<EffectModel>, crate::error::ProgramError>,
) -> Seq<LedgerAccount> {
    match r {
        Ok(es) => match apply_effects(st, es) {
            Some(next) => next,
            None => st,
        },
        Err(_) => st,
    }
}

/// An instruction takes effect whole or not at all: where the handler rejects it,
/// or the host refuses any of its effects, every account is left as it was.
pub proof fn lemma_all_or_nothing(
    st: Seq<LedgerAccount>,
    r: Result<Seq<EffectModel>, crate::error::ProgramError>,
)
    requires
        r is Err || apply_effects(st, r.unwrap()) is None,
    ensures
        settle(st, r) == st,
{
}

} // verus!

verus! {

/// The native balances of all the accounts together.
pub open spec fn total_lamports(st: Seq<LedgerAccount>) -> int
    decreases st.len(),
{
    if st.len() == 0 {
        0
    } else {
        total_lamports(st.drop_last()) + st.last().lamports
    }
}

/// The asset balances of all the accounts together.
pub open spec fn total_tokens(st: Seq<LedgerAccount>) -> int
    decreases st.len(),
{
    if st.len() == 0 {
        0
    } else {
        total_tokens(st.drop_last()) + st.last().tokens
    }
}

proof fn lemma_totals_update(st: Seq<LedgerAccount>, i: int, a: LedgerAccount)
    requires
        0 <= i < st.len(),
    ensures
        total_lamports(st.update(i, a)) == total_lamports(st) - st[i].lamports + a.lamports,
        total_tokens(st.update(i, a)) == total_tokens(st) - st[i].tokens + a.tokens,
    decreases st.len(),
{
    let u = st.update(i, a);
    if i == st.len() - 1 {
        assert(u.drop_last() =~= st.drop_last());
    } else {
        lemma_totals_update(st.drop_last(), i, a);
        assert(u.drop_last() =~= st.drop_last().update(i, a));
    }
}

/// No effect creates or destroys value: every native balance and every asset
/// balance that leaves one account arrives in another.
pub proof fn lemma_effect_conserves_value(st: Seq<LedgerAccount>, e: EffectModel)
    requires
        apply_effect(st, e) is Some,
    ensures
        total_lamports(apply_effect(st, e).unwrap()) == total_lamports(st),
        total_tokens(apply_effect(st, e).unwrap()) == total_tokens(st),
{
    match e {
        EffectModel::CreateAccount { from, to, lamports, space, owner, .. } => {
            let f = st[from as int];
            let t = st[to as int];
            let s1 = st.update(from as int, LedgerAccount { lamports: (f.lamports - lamports) as nat, ..f });
            lemma_totals_update(st, from as int, LedgerAccount { lamports: (f.lamports - lamports) as nat, ..f });
            lemma_totals_update(
                s1,
                to as int,
                LedgerAccount { lamports: lamports as nat, data: Seq::new(space as nat, |i: int| 0u8), owner: owner, ..t },
            );
        },
        EffectModel::InitializeEscrow { account, bytes } => {
            lemma_totals_update(st, account as int, LedgerAccount { data: bytes, ..st[account as int] });
        },
        EffectModel::TokenTransfer { from, to, amount, .. } => {
            let f = st[from as int];
            let t = st[to as int];
            let s1 = st.update(from as int, LedgerAccount { tokens: (f.tokens - amount) as nat, ..f });
            lemma_totals_update(st, from as int, LedgerAccount { tokens: (f.tokens - amount) as nat, ..f });
            lemma_totals_update(s1, to as int, LedgerAccount { tokens: (t.tokens + amount) as nat, ..t });
        },
        EffectModel::CloseTokenAccount { account, destination, .. } => {
            let a = st[account as int];
            let d = st[destination as int];
            let s1 = st.update(account as int, LedgerAccount { lamports: 0, data: Seq::empty(), ..a });
            lemma_totals_update(st, account as int, LedgerAccount { lamports: 0, data: Seq::empty(), ..a });
            lemma_totals_update(
                s1,
                destination as int,
                LedgerAccount { lamports: (d.lamports + a.lamports) as nat, ..d },
            );
        },
        EffectModel::CloseRecord { account, destination, system } => {
            let a = st[account as int];
            let d = st[destination as int];
            let closed = LedgerAccount { lamports: 0, data: Seq::empty(), owner: st[system as int].key, ..a };
            let s1 = st.update(account as int, closed);
            lemma_totals_update(st, account as int, closed);
            lemma_totals_update(
                s1,
                destination as int,
                LedgerAccount { lamports: (d.lamports + a.lamports) as nat, ..d },
            );
        },
        EffectModel::Invoke { .. } => {},
        EffectModel::CopyData { from, to } => {
            lemma_totals_update(st, to as int, LedgerAccount { data: st[from as int].data, ..st[to as int] });
        },
    }
}

/// A whole instruction conserves value too.
pub proof fn lemma_effects_conserve_value(st: Seq<LedgerAccount>, es: Seq<EffectModel>)
    requires
        apply_effects(st, es) is Some,
    ensures
        total_lamports(apply_effects(st, es).unwrap()) == total_lamports(st),
        total_tokens(apply_effects(st, es).unwrap()) == total_tokens(st),
    decreases es.len(),
{
    if es.len() > 0 {
        lemma_effect_conserves_value(st, es[0]);
        lemma_effects_conserve_value(apply_effect(st, es[0]).unwrap(), es.drop_first());
    }
}

} // verus!
