use crate::key::AccountKey;
use spl_token::solana_program::program_error::ProgramError;
use spl_token::solana_program::program_pack::Pack;
use spl_token::solana_program::pubkey::Pubkey;
#[allow(deprecated)]
use spl_token::state::Mint;
use vstd::prelude::*;

verus! {

/// Size in bytes of a packed token mint.
pub const MINT_LEN: usize = 82;

/// A token mint: supply, decimal precision and authorities.
#[derive(Clone, Copy, Debug, PartialEq, Eq)]
pub struct MintRecord {
    pub decimals: u8,
    pub supply: u64,
    pub is_initialized: bool,
    pub mint_authority: Option<AccountKey>,
    pub freeze_authority: Option<AccountKey>,
}

/// What a mint record holds, with keys as byte sequences.
pub struct MintModel {
    pub decimals: u8,
    pub supply: u64,
    pub is_initialized: bool,
    pub mint_authority: Option<Seq<u8>>,
    pub freeze_authority: Option<Seq<u8>>,
}

/// An optional key as an optional byte sequence.
pub open spec fn key_model(k: Option<AccountKey>) -> Option<Seq<u8>> {
    match k {
        Some(k) => Some(k@),
        None => None,
    }
}

impl View for MintRecord {
    type V = MintModel;

    open spec fn view(&self) -> MintModel {
        MintModel {
            decimals: self.decimals,
            supply: self.supply,
            is_initialized: self.is_initialized,
            mint_authority: key_model(self.mint_authority),
            freeze_authority: key_model(self.freeze_authority),
        }
    }
}

/// Why bytes could not be read as a mint.
#[derive(Clone, Copy, Debug, PartialEq, Eq)]
pub enum MintError {
    DecodeMismatch,
}

/// The unsigned value of bytes read little-endian.
pub open spec fn le_value(b: Seq<u8>) -> nat
    decreases b.len(),
{
    if b.len() == 0 {
        0
    } else {
        b[0] as nat + 256 * le_value(b.drop_first())
    }
}

/// An optional key packed in 36 bytes: a 4-byte tag, 0 for none and 1 for
/// some, then the key. `None` where the tag is neither.
pub open spec fn optional_key(b: Seq<u8>) -> Option<Option<Seq<u8>>> {
    if b.subrange(0, 4) =~= seq![0u8, 0u8, 0u8, 0u8] {
        Some(None)
    } else if b.subrange(0, 4) =~= seq![1u8, 0u8, 0u8, 0u8] {
        Some(Some(b.subrange(4, 36)))
    } else {
        None
    }
}

/// The mint that 82 bytes hold: the mint authority in bytes 0..36, the
/// supply in 36..44, the decimals at 44, the initialized flag at 45 and the
/// freeze authority in 46..82. `None` where the length is not 82, a tag or
/// the flag is not 0 or 1, or the mint is not initialized.
pub open spec fn mint_of_bytes(b: Seq<u8>) -> Option<MintModel> {
    if b.len() != MINT_LEN {
        None
    } else {
        let mint_authority = optional_key(b.subrange(0, 36));
        let freeze_authority = optional_key(b.subrange(46, 82));
        if mint_authority is None || freeze_authority is None || b[45] != 1 {
            None
        } else {
            Some(
                MintModel {
                    decimals: b[44],
                    supply: le_value(b.subrange(36, 44)) as u64,
                    is_initialized: true,
                    mint_authority: mint_authority->Some_0,
                    freeze_authority: freeze_authority->Some_0,
                },
            )
        }
    }
}

#[verifier::external_type_specification]
#[verifier::external_body]
pub struct ExProgramError(ProgramError);

/// Relies on `Pack::unpack` of spl-token's `Mint`: it accepts exactly the
/// 82-byte layout that `mint_of_bytes` reads, and only for an initialized
/// mint. The optional authorities come back as `COption<Pubkey>` and are
/// carried over byte for byte.
#[verifier::external_body]
fn unpack_mint(data: &[u8]) -> (r: Result<MintRecord, ProgramError>)
    ensures
        match r {
            Ok(m) => mint_of_bytes(data@) == Some(m@),
            Err(_) => mint_of_bytes(data@) is None,
        },
{
    let m = Mint::unpack(data)?;
    let key = |k: Option<Pubkey>| k.map(|p| AccountKey { bytes: p.to_bytes() });
    Ok(MintRecord {
        decimals: m.decimals,
        supply: m.supply,
        is_initialized: m.is_initialized,
        mint_authority: key(m.mint_authority.into()),
        freeze_authority: key(m.freeze_authority.into()),
    })
}

/// Reads bytes as a packed, initialized token mint.
pub fn decode_mint(data: &[u8]) -> (r: Result<MintRecord, MintError>)
    ensures
        match r {
            Ok(m) => mint_of_bytes(data@) == Some(m@),
            Err(e) => mint_of_bytes(data@) is None && e == MintError::DecodeMismatch,
        },
        data@.len() != MINT_LEN ==> r == Err::<MintRecord, MintError>(MintError::DecodeMismatch),
{
    match unpack_mint(data) {
        Ok(m) => Ok(m),
        Err(_) => Err(MintError::DecodeMismatch),
    }
}

} // verus!
