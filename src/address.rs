//! 32-byte account addresses, and the address services of the ledger that
//! the handlers rely on: program-derived addresses and token-account layout.
use vstd::bytes::*;
use vstd::prelude::*;

use solana_program::program_pack::Pack;

use crate::error::VestingError;

verus! {

/// Copies the 32 bytes at `offset .. offset + 32` of `src` into an address.
pub fn read_key(src: &[u8], offset: usize) -> (r: [u8; 32])
    requires
        offset + 32 <= src@.len(),
    ensures
        r@ == src@.subrange(offset as int, offset + 32),
{
    let _n = src.len();
    let mut r: [u8; 32] = [0u8; 32];
    let mut i: usize = 0;
    while i < 32
        invariant
            i <= 32,
            offset + 32 <= src@.len(),
            src@.len() == _n,
            r@.len() == 32,
            forall|j: int| 0 <= j < i ==> r@[j] == src@[offset + j],
        decreases 32 - i,
    {
        r[i] = src[offset + i];
        i = i + 1;
    }
    assert(r@ =~= src@.subrange(offset as int, offset + 32));
    r
}

/// Whether two addresses hold the same bytes.
pub fn same_key(a: &[u8; 32], b: &[u8; 32]) -> (r: bool)
    ensures
        r == (a@ == b@),
{
    let mut i: usize = 0;
    while i < 32
        invariant
            i <= 32,
            a@.len() == 32,
            b@.len() == 32,
            forall|j: int| 0 <= j < i ==> a@[j] == b@[j],
        decreases 32 - i,
    {
        if a[i] != b[i] {
            return false;
        }
        i = i + 1;
    }
    assert(a@ =~= b@);
    true
}

/// The program-derived address of a seed under a program, if the seed
/// yields one (the hash of seed and program must not be a curve point).
pub uninterp spec fn program_address_of(seed: Seq<u8>, program_id: Seq<u8>) -> Option<Seq<u8>>;

/// Relies on `Pubkey::create_program_address` of solana-program with the
/// single seed `seed`: the result depends on the seed and the program alone.
#[verifier::external_body]
fn create_program_address(seed: &[u8; 32], program_id: &[u8; 32]) -> (r: Option<[u8; 32]>)
    ensures
        r matches Some(k) ==> program_address_of(seed@, program_id@) == Some(k@),
        r is None <==> program_address_of(seed@, program_id@) is None,
{
    let program = solana_program::pubkey::Pubkey::new_from_array(*program_id);
    match solana_program::pubkey::Pubkey::create_program_address(&[&seed[..]], &program) {
        Ok(k) => Some(k.to_bytes()),
        Err(_) => None,
    }
}

/// The authority of the program over one vesting account: the seed, the
/// program, and the address that the two derive. Only the program can sign
/// for that address.
#[derive(Clone, Copy, Debug)]
pub struct DerivedAuthority {
    /// Seed chosen by the creator of the vesting account.
    pub seed: [u8; 32],
    /// Identity of the vesting program.
    pub program_id: [u8; 32],
    /// Address derived from the seed and the program.
    pub address: [u8; 32],
}

impl DerivedAuthority {
    /// Derives the address that `seed` and `program_id` control; fails with
    /// `InvalidSeeds` where they yield none.
    pub fn derive(seed: [u8; 32], program_id: [u8; 32]) -> (r: Result<DerivedAuthority, VestingError>)
        ensures
            program_address_of(seed@, program_id@) is None ==> r == Err::<
                DerivedAuthority,
                VestingError,
            >(VestingError::InvalidSeeds),
            program_address_of(seed@, program_id@) matches Some(k) ==> (r matches Ok(a) && a.seed
                == seed && a.program_id == program_id && a.address@ == k),
    {
        match create_program_address(&seed, &program_id) {
            Some(address) => Ok(DerivedAuthority { seed, program_id, address }),
            None => Err(VestingError::InvalidSeeds),
        }
    }
}

/// What the handlers read of a token account.
#[derive(Clone, Copy, Debug)]
pub struct TokenAccount {
    /// Owner of the tokens held.
    pub owner: [u8; 32],
    /// Balance held.
    pub amount: u64,
    /// Whether a delegate may move tokens of the account.
    pub has_delegate: bool,
    /// Whether an authority may close the account.
    pub has_close_authority: bool,
}

/// Whether four bytes are the tag of an absent (0) or present (1) option.
pub open spec fn option_tag_ok(t: Seq<u8>) -> bool {
    t == seq![0u8, 0u8, 0u8, 0u8] || t == seq![1u8, 0u8, 0u8, 0u8]
}

/// Whether `d` has the 165-byte token-account layout: valid option tags for
/// delegate, native amount and close authority, and a state byte of at most 2.
pub open spec fn token_layout_ok(d: Seq<u8>) -> bool {
    &&& d.len() == 165
    &&& option_tag_ok(d.subrange(72, 76))
    &&& d[108] <= 2
    &&& option_tag_ok(d.subrange(109, 113))
    &&& option_tag_ok(d.subrange(129, 133))
}

/// Why the token account `d` cannot be read, if it cannot: a broken layout,
/// or a state byte of 0 (not initialized).
pub open spec fn token_error(d: Seq<u8>) -> Option<VestingError> {
    if !token_layout_ok(d) {
        Some(VestingError::InvalidAccountData)
    } else if d[108] == 0 {
        Some(VestingError::UninitializedAccount)
    } else {
        None
    }
}

/// The owner recorded in the token account `d`.
pub open spec fn token_owner(d: Seq<u8>) -> Seq<u8> {
    d.subrange(32, 64)
}

/// The balance recorded in the token account `d`.
pub open spec fn token_amount(d: Seq<u8>) -> u64 {
    spec_u64_from_le_bytes(d.subrange(64, 72))
}

/// Whether `a` holds what the token account `d` records.
pub open spec fn token_account_in(d: Seq<u8>, a: TokenAccount) -> bool {
    &&& a.owner@ == token_owner(d)
    &&& a.amount == token_amount(d)
    &&& a.has_delegate == (d[72] == 1)
    &&& a.has_close_authority == (d[129] == 1)
}

/// Relies on `Pack::unpack` of spl-token's `Account`: a 165-byte buffer of
/// mint, owner, amount, optional delegate, state, optional native amount,
/// delegated amount and optional close authority, refused when the layout
/// is broken or the account is not initialized.
#[verifier::external_body]
pub(crate) fn unpack_token_account(data: &[u8]) -> (r: Result<TokenAccount, VestingError>)
    ensures
        r is Ok <==> token_error(data@) is None,
        r matches Ok(a) ==> token_account_in(data@, a),
        r matches Err(e) ==> token_error(data@) == Some(e),
{
    match spl_token::state::Account::unpack(data) {
        Ok(a) => Ok(TokenAccount {
            owner: a.owner.to_bytes(),
            amount: a.amount,
            has_delegate: a.delegate.is_some(),
            has_close_authority: a.close_authority.is_some(),
        }),
        Err(solana_program::program_error::ProgramError::UninitializedAccount) => {
            Err(VestingError::UninitializedAccount)
        },
        Err(_) => Err(VestingError::InvalidAccountData),
    }
}

/// Address of the token program.
pub open spec fn token_program_key() -> Seq<u8> {
    seq![
        6u8, 221u8, 246u8, 225u8, 215u8, 101u8, 161u8, 147u8, 217u8, 203u8, 225u8, 70u8, 206u8,
        235u8, 121u8, 172u8, 28u8, 180u8, 133u8, 237u8, 95u8, 91u8, 55u8, 145u8, 58u8, 140u8,
        245u8, 133u8, 126u8, 255u8, 0u8, 169u8,
    ]
}

/// Relies on `spl_token::id()`: the token program's address,
/// `TokenkegQfeZyiNwAJbNbGKPFXCWuBvf9Ss623VQ5DA` in base 58.
#[verifier::external_body]
pub(crate) fn token_program_id() -> (r: [u8; 32])
    ensures
        r@ == token_program_key(),
{
    spl_token::id().to_bytes()
}

} // verus!
