use logic::session::{login_reply_payload, parse_login_request, LoginParseError, LoginRequest};

#[test]
fn parses_split_token_login() {
    let mut data = Vec::new();
    data.extend_from_slice(&7u16.to_be_bytes());
    data.extend_from_slice(b"1_12345");
    data.extend_from_slice(&3u16.to_be_bytes());
    data.extend_from_slice(b"tok");

    assert_eq!(
        parse_login_request(&data).unwrap(),
        LoginRequest {
            account_id: "1_12345".into(),
            token: "tok".into(),
        }
    );
}

#[test]
fn parses_inline_token_login() {
    let account = b"1_12345#tok";
    let mut data = Vec::new();
    data.extend_from_slice(&(account.len() as u16).to_be_bytes());
    data.extend_from_slice(account);

    assert_eq!(
        parse_login_request(&data).unwrap(),
        LoginRequest {
            account_id: "1_12345".into(),
            token: "tok".into(),
        }
    );
}

#[test]
fn login_reply_matches_live_wire_shape() {
    assert_eq!(
        login_reply_payload(0x17eb591e),
        [0, 0, 0, 0, 0, 0, 0x17, 0xeb, 0x59, 0x1e]
    );
}

#[test]
fn login_without_any_token_is_refused() {
    let mut data = Vec::new();
    data.extend_from_slice(&3u16.to_be_bytes());
    data.extend_from_slice(b"abc");
    assert_eq!(parse_login_request(&data), Err(LoginParseError::MissingToken));
}

#[test]
fn login_with_short_frame_is_truncated() {
    assert_eq!(parse_login_request(&[0]), Err(LoginParseError::Truncated));
    let mut data = Vec::new();
    data.extend_from_slice(&9u16.to_be_bytes());
    data.extend_from_slice(b"abc");
    assert_eq!(parse_login_request(&data), Err(LoginParseError::Truncated));
}

#[test]
fn login_with_invalid_utf8_is_refused() {
    let mut data = Vec::new();
    data.extend_from_slice(&3u16.to_be_bytes());
    data.extend_from_slice(&[0xff, b'#', b'x']);
    assert_eq!(parse_login_request(&data), Err(LoginParseError::InvalidUtf8));
}

#[test]
fn inline_token_splits_at_the_first_hash() {
    let account = b"a#b#c";
    let mut data = Vec::new();
    data.extend_from_slice(&(account.len() as u16).to_be_bytes());
    data.extend_from_slice(account);
    let req = parse_login_request(&data).unwrap();
    assert_eq!(req.account_id, "a");
    assert_eq!(req.token, "b#c");
}

#[test]
fn login_reply_writes_the_full_id_big_endian() {
    assert_eq!(
        login_reply_payload(0x0102030405060708),
        [0, 0, 1, 2, 3, 4, 5, 6, 7, 8]
    );
}
