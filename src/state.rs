use vstd::prelude::*;

use crate::codec::{push_all, read_key, Pubkey};
use crate::error::MyProgramError;

verus! {

/// Size in bytes of a stored escrow record.
pub const ESCROW_LEN: usize = 105;

/// An open offer: the maker, the asset offered (X), the asset asked for (Y), the
/// amount of Y asked for, and the bump that re-derives the record's address.
#[derive(Debug, Clone, Copy, PartialEq, Eq)]
pub struct EscrowState {
    pub maker: Pubkey,
    pub mint_x: Pubkey,
    pub mint_y: Pubkey,
    pub amount: [u8; 8],
    pub bump: u8,
}

/// The stored layout: the three identities, the amount bytes, then the bump.
pub open spec fn escrow_bytes(
    maker: Seq<u8>,
    mint_x: Seq<u8>,
    mint_y: Seq<u8>,
    amount: Seq<u8>,
    bump: u8,
) -> Seq<u8> {
    maker + mint_x + mint_y + amount + seq![bump]
}

impl EscrowState {
    pub open spec fn spec_bytes(&self) -> Seq<u8> {
        escrow_bytes(self.maker@, self.mint_x@, self.mint_y@, self.amount@, self.bump)
    }

    /// The record's stored bytes.
    pub fn to_bytes(&self) -> (r: Vec<u8>)
        ensures
            r@ == self.spec_bytes(),
            r@.len() == ESCROW_LEN,
    {
        let mut r: Vec<u8> = Vec::new();
        push_all(&mut r, self.maker.as_slice());
        push_all(&mut r, self.mint_x.as_slice());
        push_all(&mut r, self.mint_y.as_slice());
        push_all(&mut r, self.amount.as_slice());
        r.push(self.bump);
        assert(r@ =~= self.spec_bytes());
        r
    }

    /// Reads a stored record; its bytes must be exactly a record's size.
    pub fn from_bytes(data: &[u8]) -> (r: Result<EscrowState, MyProgramError>)
        ensures
            match r {
                Ok(s) => data@.len() == ESCROW_LEN && s.spec_bytes() == data@,
                Err(e) => e == MyProgramError::DeserializationFailed && data@.len() != ESCROW_LEN,
            },
    {
        if data.len() != ESCROW_LEN {
            return Err(MyProgramError::DeserializationFailed);
        }
        let maker = read_key(data, 0);
        let mint_x = read_key(data, 32);
        let mint_y = read_key(data, 64);
        let mut amount: [u8; 8] = [0u8; 8];
        let mut i: usize = 0;
        while i < 8
            invariant
                i <= 8,
                data@.len() == ESCROW_LEN,
                amount@.len() == 8,
                forall|j: int| 0 <= j < i ==> amount@[j] == data@[96 + j],
            decreases 8 - i,
        {
            amount[i] = data[96 + i];
            i = i + 1;
        }
        let s = EscrowState { maker, mint_x, mint_y, amount, bump: data[104] };
        assert(amount@ =~= data@.subrange(96, 104));
        assert(s.spec_bytes() =~= data@);
        Ok(s)
    }

    /// Writes a new record over the first bytes of an account's data, which holds at
    /// least a record's size; any bytes after the record are left as they were.
    pub fn initialize(
        data: &mut [u8],
        maker: Pubkey,
        mint_x: Pubkey,
        mint_y: Pubkey,
        amount: [u8; 8],
        bump: u8,
    )
        requires
            old(data)@.len() >= ESCROW_LEN,
        ensures
            final(data)@ == escrow_bytes(maker@, mint_x@, mint_y@, amount@, bump) + old(
                data,
            )@.subrange(ESCROW_LEN as int, old(data)@.len() as int),
    {
        let s = EscrowState { maker, mint_x, mint_y, amount, bump };
        let bytes = s.to_bytes();
        write_prefix(data, bytes.as_slice());
    }
}

/// Where each field stands in the stored layout.
pub proof fn lemma_escrow_fields(s: EscrowState)
    ensures
        s.spec_bytes().len() == ESCROW_LEN,
        s.spec_bytes().subrange(0, 32) == s.maker@,
        s.spec_bytes().subrange(32, 64) == s.mint_x@,
        s.spec_bytes().subrange(64, 96) == s.mint_y@,
        s.spec_bytes().subrange(96, 104) == s.amount@,
        s.spec_bytes()[104] == s.bump,
{
    let b = s.spec_bytes();
    assert(b.subrange(0, 32) =~= s.maker@);
    assert(b.subrange(32, 64) =~= s.mint_x@);
    assert(b.subrange(64, 96) =~= s.mint_y@);
    assert(b.subrange(96, 104) =~= s.amount@);
}

/// Overwrites the front of `dst` with `src`, which is no longer.
pub fn write_prefix(dst: &mut [u8], src: &[u8])
    requires
        src@.len() <= old(dst)@.len(),
    ensures
        final(dst)@ == src@ + old(dst)@.subrange(src@.len() as int, old(dst)@.len() as int),
{
    let n = src.len();
    let mut i: usize = 0;
    while i < n
        invariant
            n == src@.len() <= dst@.len(),
            dst@.len() == old(dst)@.len(),
            i <= n,
            forall|j: int| 0 <= j < i ==> dst@[j] == src@[j],
            forall|j: int| i <= j < dst@.len() ==> dst@[j] == old(dst)@[j],
        decreases n - i,
    {
        dst[i] = src[i];
        i = i + 1;
    }
    assert(dst@ =~= src@ + old(dst)@.subrange(n as int, old(dst)@.len() as int));
}

/// Overwrites `dst` with `src`, which has the same length.
pub fn copy_into(dst: &mut [u8], src: &[u8])
    requires
        old(dst)@.len() == src@.len(),
    ensures
        final(dst)@ == src@,
{
    let n = src.len();
    let mut i: usize = 0;
    while i < n
        invariant
            n == src@.len() == dst@.len(),
            i <= n,
            forall|j: int| 0 <= j < i ==> dst@[j] == src@[j],
        decreases n - i,
    {
        dst[i] = src[i];
        i = i + 1;
    }
    assert(dst@ =~= src@);
}

} // verus!
