use vstd::prelude::*;

use crate::error::{MyProgramError, ProgramError};

verus! {

/// The identity of an account or a program: 32 bytes.
pub type Pubkey = [u8; 32];

/// Number of bytes in an identity.
pub const PUBKEY_BYTES: usize = 32;

/// The value of four bytes read as a little-endian unsigned integer.
pub open spec fn le_u32(b: Seq<u8>) -> int {
    b[0] + 256 * b[1] + 65536 * b[2] + 16777216 * b[3]
}

/// The value of eight bytes read as a little-endian unsigned integer.
pub open spec fn le_u64(b: Seq<u8>) -> int {
    le_u32(b) + 4294967296 * le_u32(b.subrange(4, 8))
}

/// The four little-endian bytes of a 32-bit value.
pub open spec fn u32_le_bytes(v: u32) -> Seq<u8> {
    seq![
        (v % 256) as u8,
        ((v / 256) % 256) as u8,
        ((v / 65536) % 256) as u8,
        (v / 16777216) as u8,
    ]
}

/// The view of an optional identity.
pub open spec fn key_opt_view(k: Option<Pubkey>) -> Option<Seq<u8>> {
    match k {
        Some(a) => Some(a@),
        None => None,
    }
}

/// Reading back the bytes of a 32-bit value gives the value.
pub proof fn lemma_u32_le_round_trip(v: u32)
    ensures
        u32_le_bytes(v).len() == 4,
        le_u32(u32_le_bytes(v)) == v,
{
    let b = u32_le_bytes(v);
    let q1 = v / 256;
    let q2 = q1 / 256;
    let q3 = q2 / 256;
    assert(v / 65536 == (v / 256) / 256) by (bit_vector);
    assert(v / 16777216 == ((v / 256) / 256) / 256) by (bit_vector);
    assert(v / 16777216 < 256) by (bit_vector);
    assert(b[0] == v % 256);
    assert(b[1] == q1 % 256);
    assert(b[2] == q2 % 256);
    assert(b[3] == q3);
}

/// Reads a little-endian `u32` at `at`.
pub fn read_u32_le(data: &[u8], at: usize) -> (r: u32)
    requires
        at + 4 <= data@.len(),
    ensures
        r == le_u32(data@.subrange(at as int, at + 4)),
{
    let b0 = data[at] as u32;
    let b1 = data[at + 1] as u32;
    let b2 = data[at + 2] as u32;
    let b3 = data[at + 3] as u32;
    b0 + 256 * b1 + 65536 * b2 + 16777216 * b3
}

/// Reads a little-endian `u64` at `at`.
pub fn read_u64_le(data: &[u8], at: usize) -> (r: u64)
    requires
        at + 8 <= data@.len(),
    ensures
        r == le_u64(data@.subrange(at as int, at + 8)),
{
    let _n = data.len();
    let lo = read_u32_le(data, at) as u64;
    let hi = read_u32_le(data, at + 4) as u64;
    assert(data@.subrange(at as int, at + 8).subrange(4, 8) =~= data@.subrange(at + 4, at + 8));
    lo + 4294967296 * hi
}

/// Appends the four little-endian bytes of `v`.
pub fn push_u32_le(out: &mut Vec<u8>, v: u32)
    ensures
        final(out)@ == old(out)@ + u32_le_bytes(v),
{
    out.push((v % 256) as u8);
    out.push(((v / 256) % 256) as u8);
    out.push(((v / 65536) % 256) as u8);
    out.push((v / 16777216) as u8);
    assert(final(out)@ =~= old(out)@ + u32_le_bytes(v));
}

/// Appends all of `src`.
pub fn push_all(out: &mut Vec<u8>, src: &[u8])
    ensures
        final(out)@ == old(out)@ + src@,
{
    let mut i: usize = 0;
    while i < src.len()
        invariant
            i <= src@.len(),
            out@ == old(out)@ + src@.subrange(0, i as int),
        decreases src@.len() - i,
    {
        out.push(src[i]);
        i = i + 1;
        assert(out@ =~= old(out)@ + src@.subrange(0, i as int));
    }
    assert(src@.subrange(0, src@.len() as int) =~= src@);
}

/// Copies `data[from..to]` into a new vector.
pub fn copy_range(data: &[u8], from: usize, to: usize) -> (r: Vec<u8>)
    requires
        from <= to <= data@.len(),
    ensures
        r@ == data@.subrange(from as int, to as int),
{
    let mut r: Vec<u8> = Vec::new();
    let mut i: usize = from;
    while i < to
        invariant
            from <= i <= to <= data@.len(),
            r@ == data@.subrange(from as int, i as int),
        decreases to - i,
    {
        r.push(data[i]);
        i = i + 1;
        assert(r@ =~= data@.subrange(from as int, i as int));
    }
    r
}

/// Reads the 32-byte identity that starts at `at`.
pub fn read_key(data: &[u8], at: usize) -> (r: Pubkey)
    requires
        at + 32 <= data@.len(),
    ensures
        r@ == data@.subrange(at as int, at + 32),
{
    let _n = data.len();
    let mut r: Pubkey = [0u8; 32];
    let mut i: usize = 0;
    while i < 32
        invariant
            i <= 32,
            at + 32 <= data@.len() == _n,
            r@.len() == 32,
            forall|j: int| 0 <= j < i ==> r@[j] == data@[at + j],
        decreases 32 - i,
    {
        r[i] = data[at + i];
        i = i + 1;
    }
    assert(r@ =~= data@.subrange(at as int, at + 32));
    r
}


/// Delegation settings read from a `Delegate` payload.
#[derive(Debug, Clone, Copy, PartialEq, Eq)]
pub struct DelegateConfig {
    pub commit_frequency_ms: u32,
    pub validator: Option<Pubkey>,
}

impl View for DelegateConfig {
    type V = (u32, Option<Seq<u8>>);

    open spec fn view(&self) -> (u32, Option<Seq<u8>>) {
        (self.commit_frequency_ms, key_opt_view(self.validator))
    }
}

/// What is sent to the delegation authority: the settings and the seeds of the
/// delegated record.
#[derive(Debug, Clone, PartialEq, Eq)]
pub struct DelegateAccountArgs {
    pub commit_frequency_ms: u32,
    pub seeds: Vec<Vec<u8>>,
    pub validator: Option<Pubkey>,
}

/// Puts `p` in front of the seeds of a parse result.
pub open spec fn prepend(
    p: Seq<Seq<u8>>,
    o: Option<(Seq<Seq<u8>>, Seq<u8>)>,
) -> Option<(Seq<Seq<u8>>, Seq<u8>)> {
    match o {
        Some((ss, rest)) => Some((p + ss, rest)),
        None => None,
    }
}

/// Reads `n` seeds, each a length byte and that many bytes, from the front of
/// `data`; gives the seeds and what follows them, or nothing when `data` is cut short.
pub open spec fn parse_seeds(data: Seq<u8>, n: nat) -> Option<(Seq<Seq<u8>>, Seq<u8>)>
    decreases n,
{
    if n == 0 {
        Some((Seq::empty(), data))
    } else if data.len() < 1 || data.len() < 1 + data[0] {
        None
    } else {
        prepend(
            seq![data.subrange(1, 1 + data[0])],
            parse_seeds(data.subrange(1 + data[0], data.len() as int), (n - 1) as nat),
        )
    }
}

/// A seed list: a count byte, then the seeds.
pub open spec fn seed_list(data: Seq<u8>) -> Option<(Seq<Seq<u8>>, Seq<u8>)> {
    if data.len() < 1 {
        None
    } else {
        parse_seeds(data.subrange(1, data.len() as int), data[0] as nat)
    }
}

/// The settings at the front of `rest`: a little-endian `u32` frequency, then a
/// validator identity where at least 36 bytes are there.
pub open spec fn config_of(rest: Seq<u8>) -> Result<(u32, Option<Seq<u8>>), ProgramError> {
    if rest.len() < 4 {
        Err(ProgramError::Custom(MyProgramError::SerializationFailed))
    } else {
        Ok(
            (
                le_u32(rest.subrange(0, 4)) as u32,
                if rest.len() >= 36 {
                    Some(rest.subrange(4, 36))
                } else {
                    None
                },
            ),
        )
    }
}

/// The meaning of a `Delegate` payload: the seed list, then the settings.
pub open spec fn delegate_ix_of(data: Seq<u8>) -> Result<
    (Seq<Seq<u8>>, (u32, Option<Seq<u8>>)),
    ProgramError,
> {
    match seed_list(data) {
        None => Err(ProgramError::InvalidInstructionData),
        Some((ss, rest)) => match config_of(rest) {
            Ok(c) => Ok((ss, c)),
            Err(e) => Err(e),
        },
    }
}

/// The meaning of an `Undelegate` payload: the seed list alone.
pub open spec fn undelegate_ix_of(data: Seq<u8>) -> Result<Seq<Seq<u8>>, ProgramError> {
    match seed_list(data) {
        None => Err(ProgramError::InvalidInstructionData),
        Some((ss, _rest)) => Ok(ss),
    }
}

/// The seeds as a payload writes them: each a length byte and its bytes.
pub open spec fn seed_entries(seeds: Seq<Seq<u8>>) -> Seq<u8>
    decreases seeds.len(),
{
    if seeds.len() == 0 {
        Seq::empty()
    } else {
        seq![seeds[0].len() as u8] + seeds[0] + seed_entries(seeds.drop_first())
    }
}

/// A seed list as a payload writes it.
pub open spec fn seed_list_bytes(seeds: Seq<Seq<u8>>) -> Seq<u8> {
    seq![seeds.len() as u8] + seed_entries(seeds)
}

/// The settings as a payload writes them.
pub open spec fn config_bytes(c: (u32, Option<Seq<u8>>)) -> Seq<u8> {
    u32_le_bytes(c.0) + match c.1 {
        Some(v) => v,
        None => Seq::empty(),
    }
}

/// A seed list fits its wire form: at most 255 seeds of at most 255 bytes.
pub open spec fn seeds_fit(seeds: Seq<Seq<u8>>) -> bool {
    seeds.len() <= 255 && forall|i: int| 0 <= i < seeds.len() ==> #[trigger] seeds[i].len() <= 255
}

/// A `Delegate` payload as a client writes it.
pub open spec fn delegate_ix_bytes(seeds: Seq<Seq<u8>>, c: (u32, Option<Seq<u8>>)) -> Seq<u8> {
    seed_list_bytes(seeds) + config_bytes(c)
}

proof fn lemma_parse_seed_entries(seeds: Seq<Seq<u8>>, rest: Seq<u8>)
    requires
        forall|i: int| 0 <= i < seeds.len() ==> #[trigger] seeds[i].len() <= 255,
    ensures
        parse_seeds(seed_entries(seeds) + rest, seeds.len()) == Some((seeds, rest)),
    decreases seeds.len(),
{
    if seeds.len() > 0 {
        let s0 = seeds[0];
        let tail = seeds.drop_first();
        assert forall|i: int| 0 <= i < tail.len() implies #[trigger] tail[i].len() <= 255 by {
            assert(tail[i] == seeds[i + 1]);
        }
        lemma_parse_seed_entries(tail, rest);
        let data = seed_entries(seeds) + rest;
        assert(s0.len() <= 255);
        assert(data[0] == s0.len() as u8);
        assert(data.subrange(1, 1 + data[0]) =~= s0);
        assert(data.subrange(1 + data[0], data.len() as int) =~= seed_entries(tail) + rest);
        assert(seq![s0] + tail =~= seeds);
    } else {
        assert(seed_entries(seeds) + rest =~= rest);
    }
}

/// A seed list written out and read back gives the same seeds, and what followed
/// it is left as it was.
pub proof fn lemma_seed_list_round_trip(seeds: Seq<Seq<u8>>, rest: Seq<u8>)
    requires
        seeds_fit(seeds),
    ensures
        seed_list(seed_list_bytes(seeds) + rest) == Some((seeds, rest)),
{
    let data = seed_list_bytes(seeds) + rest;
    assert(data.subrange(1, data.len() as int) =~= seed_entries(seeds) + rest);
    lemma_parse_seed_entries(seeds, rest);
}

/// A `Delegate` payload written out by a client and read back gives the seeds and
/// the settings that were written.
pub proof fn lemma_delegate_ix_round_trip(seeds: Seq<Seq<u8>>, c: (u32, Option<Seq<u8>>))
    requires
        seeds_fit(seeds),
        c.1 matches Some(v) ==> v.len() == 32,
    ensures
        delegate_ix_of(delegate_ix_bytes(seeds, c)) == Ok::<_, ProgramError>((seeds, c)),
{
    let cb = config_bytes(c);
    assert(delegate_ix_bytes(seeds, c) =~= seed_list_bytes(seeds) + cb);
    lemma_seed_list_round_trip(seeds, cb);
    lemma_u32_le_round_trip(c.0);
    assert(cb.subrange(0, 4) =~= u32_le_bytes(c.0));
    match c.1 {
        Some(v) => {
            assert(cb.subrange(4, 36) =~= v);
        },
        None => {},
    }
}


/// The outbound form of the seeds: each a little-endian `u32` length and its bytes.
pub open spec fn outbound_entries(seeds: Seq<Seq<u8>>) -> Seq<u8>
    decreases seeds.len(),
{
    if seeds.len() == 0 {
        Seq::empty()
    } else {
        outbound_entries(seeds.drop_last()) + u32_le_bytes(seeds.last().len() as u32)
            + seeds.last()
    }
}

/// The payload of the call to the delegation authority: frequency, seed count,
/// seeds, then the validator where there is one.
pub open spec fn delegate_args_bytes(
    freq: u32,
    seeds: Seq<Seq<u8>>,
    validator: Option<Seq<u8>>,
) -> Seq<u8> {
    u32_le_bytes(freq) + seq![seeds.len() as u8] + outbound_entries(seeds) + match validator {
        Some(v) => v,
        None => Seq::empty(),
    }
}

/// Reads the settings at the front of a payload's remainder.
pub fn parse_delegate_config(data: &[u8]) -> (r: Result<DelegateConfig, ProgramError>)
    ensures
        match r {
            Ok(c) => config_of(data@) == Ok::<_, ProgramError>(c@),
            Err(e) => config_of(data@) == Err::<(u32, Option<Seq<u8>>), _>(e),
        },
{
    if data.len() < 4 {
        return Err(ProgramError::Custom(MyProgramError::SerializationFailed));
    }
    let commit_frequency_ms = read_u32_le(data, 0);
    let validator = if data.len() >= 36 {
        Some(read_key(data, 4))
    } else {
        None
    };
    Ok(DelegateConfig { commit_frequency_ms, validator })
}

/// Reads a seed list: a count byte, then for each seed a length byte and its
/// bytes. Gives the seeds and the offset of what follows them.
pub fn decode_seed_list(data: &[u8]) -> (r: Result<(Vec<Vec<u8>>, usize), ProgramError>)
    ensures
        match r {
            Ok((seeds, off)) => off <= data@.len() && seed_list(data@) == Some(
                (seeds.deep_view(), data@.subrange(off as int, data@.len() as int)),
            ),
            Err(e) => e == ProgramError::InvalidInstructionData && seed_list(data@) is None,
        },
{
    let len = data.len();
    if len < 1 {
        return Err(ProgramError::InvalidInstructionData);
    }
    let n = data[0] as usize;
    let mut off: usize = 1;
    let mut seeds: Vec<Vec<u8>> = Vec::new();
    let ghost mut gs: Seq<Seq<u8>> = Seq::empty();
    let mut i: usize = 0;
    while i < n
        invariant
            len == data@.len(),
            n == data@[0],
            1 <= off <= len,
            i <= n,
            seeds@.len() == gs.len() == i,
            forall|j: int| 0 <= j < gs.len() ==> (#[trigger] seeds@[j])@ == gs[j],
            prepend(gs, parse_seeds(data@.subrange(off as int, len as int), (n - i) as nat))
                == seed_list(data@),
        decreases n - i,
    {
        let ghost here = data@.subrange(off as int, len as int);
        if len - off < 1 {
            return Err(ProgramError::InvalidInstructionData);
        }
        let l = data[off] as usize;
        if len - off - 1 < l {
            return Err(ProgramError::InvalidInstructionData);
        }
        let seed = copy_range(data, off + 1, off + 1 + l);
        proof {
            assert(here.subrange(1, 1 + here[0]) =~= seed@);
            assert(here.subrange(1 + here[0], here.len() as int) =~= data@.subrange(
                (off + 1 + l) as int,
                len as int,
            ));
            let inner = parse_seeds(data@.subrange((off + 1 + l) as int, len as int), (n - i - 1) as nat);
            match inner {
                Some((ss, rest)) => {
                    assert(gs + (seq![seed@] + ss) =~= gs.push(seed@) + ss);
                },
                None => {},
            }
        }
        let ghost sv = seed@;
        seeds.push(seed);
        proof {
            gs = gs.push(sv);
        }
        off = off + 1 + l;
        i = i + 1;
    }
    proof {
        assert(gs + Seq::empty() =~= gs);
        assert forall|j: int| 0 <= j < gs.len() implies seeds.deep_view()[j] == gs[j] by {
            assert(seeds@[j]@ == gs[j]);
        }
        assert(seeds.deep_view() =~= gs);
    }
    Ok((seeds, off))
}

/// Reads a `Delegate` payload: the seed list, then the settings.
pub fn deserialize_delegate_ix_data(ix_data: &[u8]) -> (r: Result<
    (Vec<Vec<u8>>, DelegateConfig),
    ProgramError,
>)
    ensures
        match r {
            Ok((seeds, c)) => delegate_ix_of(ix_data@) == Ok::<_, ProgramError>(
                (seeds.deep_view(), c@),
            ),
            Err(e) => delegate_ix_of(ix_data@) == Err::<(Seq<Seq<u8>>, (u32, Option<Seq<u8>>)), _>(e),
        },
{
    let (seeds, off) = decode_seed_list(ix_data)?;
    let rest = vstd::slice::slice_subrange(ix_data, off, ix_data.len());
    let config = parse_delegate_config(rest)?;
    Ok((seeds, config))
}

/// Reads an `Undelegate` payload: the seed list.
pub fn deserialize_undelegate_ix_data(ix_data: &[u8]) -> (r: Result<Vec<Vec<u8>>, ProgramError>)
    ensures
        match r {
            Ok(seeds) => undelegate_ix_of(ix_data@) == Ok::<_, ProgramError>(seeds.deep_view()),
            Err(e) => undelegate_ix_of(ix_data@) == Err::<Seq<Seq<u8>>, _>(e),
        },
{
    let (seeds, _off) = decode_seed_list(ix_data)?;
    Ok(seeds)
}

/// Writes the payload of the call to the delegation authority.
pub fn serialize_delegate_account_args(args: &DelegateAccountArgs) -> (r: Vec<u8>)
    requires
        seeds_fit(args.seeds.deep_view()),
    ensures
        r@ == delegate_args_bytes(
            args.commit_frequency_ms,
            args.seeds.deep_view(),
            key_opt_view(args.validator),
        ),
{
    let ghost ds = args.seeds.deep_view();
    let mut data: Vec<u8> = Vec::new();
    push_u32_le(&mut data, args.commit_frequency_ms);
    let num_seeds = args.seeds.len() as u8;
    data.push(num_seeds);
    let ghost head = data@;
    assert(ds.subrange(0, 0) =~= Seq::<Seq<u8>>::empty());
    assert(data@ =~= head + outbound_entries(ds.subrange(0, 0)));
    let mut i: usize = 0;
    while i < args.seeds.len()
        invariant
            ds == args.seeds.deep_view(),
            seeds_fit(ds),
            i <= args.seeds@.len(),
            head == u32_le_bytes(args.commit_frequency_ms) + seq![ds.len() as u8],
            data@ == head + outbound_entries(ds.subrange(0, i as int)),
        decreases args.seeds@.len() - i,
    {
        let seed = &args.seeds[i];
        assert(seed@ == ds[i as int]);
        assert(seed@.len() <= 255);
        push_u32_le(&mut data, seed.len() as u32);
        push_all(&mut data, seed.as_slice());
        proof {
            let s = ds.subrange(0, i + 1);
            assert(s.drop_last() =~= ds.subrange(0, i as int));
            assert(s.last() == seed@);
            assert(data@ =~= head + outbound_entries(s));
        }
        i = i + 1;
    }
    assert(ds.subrange(0, ds.len() as int) =~= ds);
    match args.validator {
        Some(pubkey) => {
            push_all(&mut data, pubkey.as_slice());
        },
        None => {},
    }
    assert(data@ =~= delegate_args_bytes(
        args.commit_frequency_ms,
        args.seeds.deep_view(),
        key_opt_view(args.validator),
    ));
    data
}

} // verus!

verus! {

/// Whether two identities are the same.
pub fn keys_equal(a: &Pubkey, b: &Pubkey) -> (r: bool)
    ensures
        r == (a@ == b@),
{
    let mut i: usize = 0;
    while i < 32
        invariant
            i <= 32,
            a@.len() == 32,
            b@.len() == 32,
            forall|j: int| 0 <= j < i ==> a@[j] == b@[j],
        decreases 32 - i,
    {
        if a[i] != b[i] {
            return false;
        }
        i = i + 1;
    }
    assert(a@ =~= b@);
    true
}

} // verus!

verus! {

/// Seeds read from a payload always fit the wire form.
pub proof fn lemma_parsed_seeds_fit(data: Seq<u8>, n: nat)
    requires
        parse_seeds(data, n) is Some,
    ensures
        parse_seeds(data, n).unwrap().0.len() == n,
        forall|i: int|
            0 <= i < n ==> #[trigger] parse_seeds(data, n).unwrap().0[i].len() <= 255,
    decreases n,
{
    if n > 0 {
        let next = data.subrange(1 + data[0], data.len() as int);
        lemma_parsed_seeds_fit(next, (n - 1) as nat);
        let ss = parse_seeds(data, n).unwrap().0;
        let inner = parse_seeds(next, (n - 1) as nat).unwrap().0;
        assert(ss =~= seq![data.subrange(1, 1 + data[0])] + inner);
        assert forall|i: int| 0 <= i < n implies #[trigger] ss[i].len() <= 255 by {
            if i > 0 {
                assert(ss[i] == inner[i - 1]);
            }
        }
    }
}

/// Seeds read from a seed list fit the wire form.
pub proof fn lemma_seed_list_fits(data: Seq<u8>)
    requires
        seed_list(data) is Some,
    ensures
        seeds_fit(seed_list(data).unwrap().0),
{
    lemma_parsed_seeds_fit(data.subrange(1, data.len() as int), data[0] as nat);
}

} // verus!

verus! {

proof fn lemma_truncated_entries_fail(seeds: Seq<Seq<u8>>, k: int)
    requires
        forall|i: int| 0 <= i < seeds.len() ==> #[trigger] seeds[i].len() <= 255,
        0 <= k < seed_entries(seeds).len(),
    ensures
        parse_seeds(seed_entries(seeds).subrange(0, k), seeds.len()) is None,
    decreases seeds.len(),
{
    let all = seed_entries(seeds);
    let data = all.subrange(0, k);
    if seeds.len() > 0 {
        let s0 = seeds[0];
        let tail = seeds.drop_first();
        assert(s0.len() <= 255);
        if k >= 1 {
            assert(data[0] == s0.len() as u8);
        }
        if k >= 1 + s0.len() {
            assert forall|i: int| 0 <= i < tail.len() implies #[trigger] tail[i].len() <= 255 by {
                assert(tail[i] == seeds[i + 1]);
            }
            let j = k - 1 - s0.len();
            lemma_truncated_entries_fail(tail, j);
            assert(data.subrange(1 + data[0], data.len() as int) =~= seed_entries(tail).subrange(0, j));
        }
    }
}

/// A seed list cut short anywhere is rejected.
pub proof fn lemma_truncated_seed_list_fails(seeds: Seq<Seq<u8>>, k: int)
    requires
        seeds_fit(seeds),
        0 <= k < seed_list_bytes(seeds).len(),
    ensures
        seed_list(seed_list_bytes(seeds).subrange(0, k)) is None,
{
    let data = seed_list_bytes(seeds).subrange(0, k);
    if k >= 1 {
        lemma_truncated_entries_fail(seeds, k - 1);
        assert(data.subrange(1, data.len() as int) =~= seed_entries(seeds).subrange(0, k - 1));
        assert(data[0] == seeds.len() as u8);
    }
}

} // verus!

verus! {

proof fn lemma_seed_entries_push(seeds: Seq<Seq<u8>>, x: Seq<u8>)
    ensures
        seed_entries(seeds.push(x)) == seed_entries(seeds) + seq![x.len() as u8] + x,
    decreases seeds.len(),
{
    if seeds.len() == 0 {
        assert(seeds.push(x).drop_first() =~= Seq::<Seq<u8>>::empty());
        assert(seeds.push(x)[0] == x);
        assert(seed_entries(seeds) == Seq::<u8>::empty());
        assert(seed_entries(seeds.push(x).drop_first()) == Seq::<u8>::empty());
        assert(seed_entries(seeds.push(x)) =~= seed_entries(seeds) + seq![x.len() as u8] + x);
    } else {
        assert(seeds.push(x).drop_first() =~= seeds.drop_first().push(x));
        lemma_seed_entries_push(seeds.drop_first(), x);
        assert(seeds.push(x)[0] == seeds[0]);
        assert(seed_entries(seeds.push(x)) =~= seed_entries(seeds) + seq![x.len() as u8] + x);
    }
}

/// Writes a `Delegate` payload: the seed list, each seed with a length byte, then
/// the settings.
pub fn encode_delegate_ix_data(seeds: &Vec<Vec<u8>>, config: &DelegateConfig) -> (r: Vec<u8>)
    requires
        seeds_fit(seeds.deep_view()),
    ensures
        r@ == delegate_ix_bytes(seeds.deep_view(), config@),
{
    let ghost ds = seeds.deep_view();
    let mut out: Vec<u8> = Vec::new();
    out.push(seeds.len() as u8);
    assert(ds.subrange(0, 0) =~= Seq::<Seq<u8>>::empty());
    let mut i: usize = 0;
    while i < seeds.len()
        invariant
            ds == seeds.deep_view(),
            seeds_fit(ds),
            i <= seeds@.len(),
            out@ == seq![ds.len() as u8] + seed_entries(ds.subrange(0, i as int)),
        decreases seeds@.len() - i,
    {
        let seed = &seeds[i];
        assert(seed@ == ds[i as int]);
        out.push(seed.len() as u8);
        push_all(&mut out, seed.as_slice());
        proof {
            assert(ds.subrange(0, i + 1) =~= ds.subrange(0, i as int).push(seed@));
            lemma_seed_entries_push(ds.subrange(0, i as int), seed@);
            assert(out@ =~= seq![ds.len() as u8] + seed_entries(ds.subrange(0, i + 1)));
        }
        i = i + 1;
    }
    assert(ds.subrange(0, ds.len() as int) =~= ds);
    let ghost list = out@;
    push_u32_le(&mut out, config.commit_frequency_ms);
    match config.validator {
        Some(v) => {
            push_all(&mut out, v.as_slice());
        },
        None => {},
    }
    assert(out@ =~= delegate_ix_bytes(seeds.deep_view(), config@));
    out
}

} // verus!

verus! {

proof fn lemma_parse_seeds_reencodes(data: Seq<u8>, n: nat)
    requires
        parse_seeds(data, n) is Some,
    ensures
        seed_entries(parse_seeds(data, n).unwrap().0) + parse_seeds(data, n).unwrap().1 == data,
    decreases n,
{
    if n == 0 {
        assert(seed_entries(Seq::<Seq<u8>>::empty()) + data =~= data);
    } else {
        let l = data[0];
        let next = data.subrange(1 + l, data.len() as int);
        lemma_parse_seeds_reencodes(next, (n - 1) as nat);
        let (inner, rest) = parse_seeds(next, (n - 1) as nat).unwrap();
        let ss = parse_seeds(data, n).unwrap().0;
        let s0 = data.subrange(1, 1 + l);
        assert(ss =~= seq![s0] + inner);
        assert(ss[0] == s0);
        assert(ss.drop_first() =~= inner);
        assert(s0.len() as u8 == l);
        assert(parse_seeds(data, n).unwrap().1 == rest);
        assert(seed_entries(ss) == seq![l] + s0 + seed_entries(inner));
        assert(data =~= seq![l] + s0 + next);
        assert(seed_entries(ss) + rest =~= seq![l] + s0 + (seed_entries(inner) + rest));
    }
}

/// Writing out a decoded seed list gives back the bytes it was read from; a
/// payload whose seed list ends exactly at its end is the encoding of its seeds.
pub proof fn lemma_seed_list_reencodes(data: Seq<u8>)
    requires
        seed_list(data) is Some,
    ensures
        seed_list_bytes(seed_list(data).unwrap().0) + seed_list(data).unwrap().1 == data,
        seed_list(data).unwrap().1.len() == 0 ==> undelegate_ix_of(data) == Ok::<_, ProgramError>(
            seed_list(data).unwrap().0,
        ) && seed_list_bytes(seed_list(data).unwrap().0) == data,
{
    let body = data.subrange(1, data.len() as int);
    lemma_parse_seeds_reencodes(body, data[0] as nat);
    lemma_parsed_seeds_fit(body, data[0] as nat);
    let (ss, rest) = seed_list(data).unwrap();
    assert(ss.len() as u8 == data[0]);
    assert(seed_entries(ss) + rest == body);
    assert(data =~= seq![data[0]] + body);
    assert(seed_list_bytes(ss) + rest =~= seq![data[0]] + (seed_entries(ss) + rest));
    if rest.len() == 0 {
        assert(seed_list_bytes(ss) + rest =~= seed_list_bytes(ss));
    }
}

} // verus!
