use account_fetcher::key::AccountKey;
use account_fetcher::mint::{decode_mint, MintError, MINT_LEN};

fn packed_mint(
    mint_authority: Option<[u8; 32]>,
    supply: u64,
    decimals: u8,
    initialized: u8,
    freeze_authority: Option<[u8; 32]>,
) -> Vec<u8> {
    let mut out = Vec::new();
    let push_key = |out: &mut Vec<u8>, k: Option<[u8; 32]>| match k {
        Some(b) => {
            out.extend_from_slice(&[1, 0, 0, 0]);
            out.extend_from_slice(&b);
        }
        None => out.extend_from_slice(&[0u8; 36]),
    };
    push_key(&mut out, mint_authority);
    out.extend_from_slice(&supply.to_le_bytes());
    out.push(decimals);
    out.push(initialized);
    push_key(&mut out, freeze_authority);
    out
}

#[test]
fn decodes_plain_mint() {
    let data = packed_mint(None, 1_000_000, 6, 1, None);
    assert_eq!(data.len(), MINT_LEN);
    let m = decode_mint(&data).unwrap();
    assert_eq!(m.decimals, 6);
    assert_eq!(m.supply, 1_000_000);
    assert!(m.is_initialized);
    assert_eq!(m.mint_authority, None);
    assert_eq!(m.freeze_authority, None);
}

#[test]
fn decodes_authorities() {
    let a = [7u8; 32];
    let mut f = [0u8; 32];
    f[31] = 9;
    let data = packed_mint(Some(a), u64::MAX, 9, 1, Some(f));
    let m = decode_mint(&data).unwrap();
    assert_eq!(m.supply, u64::MAX);
    assert_eq!(m.decimals, 9);
    assert_eq!(m.mint_authority, Some(AccountKey::from_bytes(a)));
    assert_eq!(m.freeze_authority, Some(AccountKey::from_bytes(f)));
}

#[test]
fn wrong_lengths_are_mismatch() {
    let data = packed_mint(None, 1_000_000, 6, 1, None);
    assert_eq!(decode_mint(&data[..81]), Err(MintError::DecodeMismatch));
    let mut longer = data.clone();
    longer.push(0);
    assert_eq!(decode_mint(&longer), Err(MintError::DecodeMismatch));
    assert_eq!(decode_mint(&[]), Err(MintError::DecodeMismatch));
    assert_eq!(decode_mint(&[0u8; 165]), Err(MintError::DecodeMismatch));
}

#[test]
fn uninitialized_mint_is_mismatch() {
    let data = packed_mint(None, 5, 2, 0, None);
    assert_eq!(decode_mint(&data), Err(MintError::DecodeMismatch));
}

#[test]
fn bad_flag_or_tag_is_mismatch() {
    let data = packed_mint(None, 5, 2, 2, None);
    assert_eq!(decode_mint(&data), Err(MintError::DecodeMismatch));
    let mut data = packed_mint(None, 5, 2, 1, None);
    data[0] = 2;
    assert_eq!(decode_mint(&data), Err(MintError::DecodeMismatch));
    let mut data = packed_mint(None, 5, 2, 1, None);
    data[49] = 1;
    assert_eq!(decode_mint(&data), Err(MintError::DecodeMismatch));
}
