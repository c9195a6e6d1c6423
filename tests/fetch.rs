use account_fetcher::fetch::{AccountView, Action, Event, Fetch, FetchError, RawAccount};
use account_fetcher::key::AccountKey;
use account_fetcher::mint::MintError;

const SYSTEM: &str = "11111111111111111111111111111111";
const WSOL: &str = "So11111111111111111111111111111111111111112";

fn start(key: &str, n: usize, decode: bool) -> (Fetch, Action) {
    Fetch::start(key, n, decode).unwrap()
}

fn raw(data: Vec<u8>) -> RawAccount {
    RawAccount {
        lamports: 1_461_600,
        owner: AccountKey::from_bytes([3u8; 32]),
        executable: false,
        data,
    }
}

#[test]
fn parses_system_key_as_zero_bytes() {
    assert_eq!(AccountKey::parse(SYSTEM), Some(AccountKey::from_bytes([0u8; 32])));
    let k = AccountKey::parse(WSOL).unwrap();
    assert_ne!(k, AccountKey::from_bytes([0u8; 32]));
    assert!(AccountKey::parse("TokenkegQfeZyiNwAJbNbGKPFXCWuBvf9Ss623VQ5DA").is_some());
}

#[test]
fn first_request_is_parsed_on_primary() {
    let (f, a) = start(SYSTEM, 2, false);
    assert!(!f.is_finished());
    match a {
        Action::RequestParsed { endpoint, key } => {
            assert_eq!(endpoint, 0);
            assert_eq!(key, AccountKey::from_bytes([0u8; 32]));
        }
        _ => panic!("expected a parsed request"),
    }
}

#[test]
fn parsed_document_ends_without_raw_request() {
    let (mut f, _) = start(SYSTEM, 1, false);
    match f.step(Event::Document("{\"program\":\"system\"}".to_string())) {
        Action::Done(Ok(AccountView::Parsed(d))) => assert_eq!(d, "{\"program\":\"system\"}"),
        other => panic!("unexpected {:?}", other),
    }
    assert!(f.is_finished());
}

#[test]
fn declined_parse_falls_back_to_raw() {
    let (mut f, _) = start(SYSTEM, 1, false);
    match f.step(Event::Declined) {
        Action::RequestRaw { endpoint, .. } => assert_eq!(endpoint, 0),
        other => panic!("unexpected {:?}", other),
    }
    assert!(f.awaits_raw());
    match f.step(Event::Account(raw(vec![5u8; 14]))) {
        Action::Done(Ok(AccountView::Raw { account, mint })) => {
            assert_eq!(account.data.len(), 14);
            assert_eq!(account.lamports, 1_461_600);
            assert!(mint.is_none());
        }
        other => panic!("unexpected {:?}", other),
    }
}

#[test]
fn missing_account_is_not_found() {
    let (mut f, _) = start(SYSTEM, 1, false);
    assert!(matches!(f.step(Event::Missing), Action::Done(Ok(AccountView::NotFound))));
    let (mut f, _) = start(SYSTEM, 1, false);
    f.step(Event::Declined);
    assert!(matches!(f.step(Event::Missing), Action::Done(Ok(AccountView::NotFound))));
}

#[test]
fn raw_mint_is_decoded_when_asked() {
    let mut data = vec![0u8; 82];
    data[36..44].copy_from_slice(&1_000_000u64.to_le_bytes());
    data[44] = 6;
    data[45] = 1;
    let (mut f, _) = start(WSOL, 1, true);
    f.step(Event::Declined);
    match f.step(Event::Account(raw(data))) {
        Action::Done(Ok(AccountView::Raw { account, mint })) => {
            assert_eq!(account.data.len(), 82);
            let m = mint.unwrap().unwrap();
            assert_eq!((m.decimals, m.supply, m.is_initialized), (6, 1_000_000, true));
            assert_eq!((m.mint_authority, m.freeze_authority), (None, None));
        }
        other => panic!("unexpected {:?}", other),
    }
}

#[test]
fn wrong_length_raw_keeps_fields_and_reports_mismatch() {
    let (mut f, _) = start(WSOL, 1, true);
    f.step(Event::Declined);
    match f.step(Event::Account(raw(vec![1u8; 40]))) {
        Action::Done(Ok(AccountView::Raw { account, mint })) => {
            assert_eq!(account.lamports, 1_461_600);
            assert_eq!(account.owner, AccountKey::from_bytes([3u8; 32]));
            assert!(!account.executable);
            assert_eq!(account.data, vec![1u8; 40]);
            assert_eq!(mint, Some(Err(MintError::DecodeMismatch)));
        }
        other => panic!("unexpected {:?}", other),
    }
}

#[test]
fn primary_failure_moves_to_fallback_once() {
    let (mut f, first) = start(SYSTEM, 2, false);
    assert!(matches!(first, Action::RequestParsed { endpoint: 0, .. }));
    match f.step(Event::TransportFailed("connection refused".to_string())) {
        Action::RequestParsed { endpoint, .. } => assert_eq!(endpoint, 1),
        other => panic!("unexpected {:?}", other),
    }
    match f.step(Event::Declined) {
        Action::RequestRaw { endpoint, .. } => assert_eq!(endpoint, 1),
        other => panic!("unexpected {:?}", other),
    }
    match f.step(Event::Account(raw(vec![]))) {
        Action::Done(Ok(AccountView::Raw { account, .. })) => assert!(account.data.is_empty()),
        other => panic!("unexpected {:?}", other),
    }
}

#[test]
fn all_endpoints_failing_reports_last_message() {
    let (mut f, _) = start(SYSTEM, 3, false);
    assert!(matches!(
        f.step(Event::TransportFailed("a".to_string())),
        Action::RequestParsed { endpoint: 1, .. }
    ));
    assert!(matches!(
        f.step(Event::TransportFailed("b".to_string())),
        Action::RequestParsed { endpoint: 2, .. }
    ));
    match f.step(Event::TransportFailed("c".to_string())) {
        Action::Done(Err(FetchError::Transport(m))) => assert_eq!(m, "c"),
        other => panic!("unexpected {:?}", other),
    }
    assert!(f.is_finished());
}

#[test]
fn raw_request_failure_also_fails_over() {
    let (mut f, _) = start(SYSTEM, 2, false);
    f.step(Event::Declined);
    assert!(matches!(
        f.step(Event::TransportFailed("timeout".to_string())),
        Action::RequestParsed { endpoint: 1, .. }
    ));
}

#[test]
fn invalid_keys_are_refused_before_any_request() {
    assert!(matches!(Fetch::start("abc", 1, false), Err(FetchError::InvalidKey)));
    assert!(matches!(
        Fetch::start("111111111111111111111111111111111111111111111", 1, false),
        Err(FetchError::InvalidKey)
    ));
    assert!(matches!(
        Fetch::start("0OIl1111111111111111111111111111", 1, false),
        Err(FetchError::InvalidKey)
    ));
    assert!(matches!(Fetch::start("", 1, false), Err(FetchError::InvalidKey)));
}

#[test]
fn no_endpoints_is_config_error() {
    assert!(matches!(Fetch::start(SYSTEM, 0, false), Err(FetchError::NoEndpoints)));
    assert!(matches!(Fetch::start("abc", 0, false), Err(FetchError::InvalidKey)));
}
