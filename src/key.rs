use std::str::FromStr;
use vstd::prelude::*;

verus! {

/// Longest text that can spell a 32-byte key in base58.
pub const MAX_KEY_TEXT_LEN: usize = 44;

/// A 32-byte account identifier.
#[derive(Clone, Copy, Debug, PartialEq, Eq)]
pub struct AccountKey {
    pub bytes: [u8; 32],
}

impl View for AccountKey {
    type V = Seq<u8>;

    open spec fn view(&self) -> Seq<u8> {
        self.bytes@
    }
}

/// The 32 bytes that a base58 text decodes to, or `None` where the text does
/// not spell exactly 32 bytes in base58.
pub uninterp spec fn key_of_text(s: Seq<char>) -> Option<Seq<u8>>;

/// Relies on `Pubkey::from_str` of solana-sdk: it decodes base58 text into 32
/// bytes, and refuses text longer than 44 bytes before decoding.
#[verifier::external_body]
fn decode_key_text(s: &str) -> (r: Option<[u8; 32]>)
    ensures
        match r {
            Some(b) => key_of_text(s@) == Some(b@),
            None => key_of_text(s@) is None,
        },
        s@.len() > MAX_KEY_TEXT_LEN ==> r is None,
{
    match solana_sdk::pubkey::Pubkey::from_str(s) {
        Ok(k) => Some(k.to_bytes()),
        Err(_) => None,
    }
}

impl AccountKey {
    /// Reads a key from its base58 text; `None` where the text is not a valid key.
    pub fn parse(s: &str) -> (r: Option<AccountKey>)
        ensures
            match r {
                Some(k) => key_of_text(s@) == Some(k@),
                None => key_of_text(s@) is None,
            },
            s@.len() > MAX_KEY_TEXT_LEN ==> r is None,
    {
        match decode_key_text(s) {
            Some(b) => Some(AccountKey { bytes: b }),
            None => None,
        }
    }

    /// Builds a key from its 32 bytes.
    pub fn from_bytes(bytes: [u8; 32]) -> (r: AccountKey)
        ensures
            r@ == bytes@,
    {
        AccountKey { bytes }
    }
}

} // verus!
