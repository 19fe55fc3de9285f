use authcore::claims::{encode, Claims};
use authcore::client::ClientRecord;
use authcore::errors::Error;
use authcore::flow::{begin_authorization, issue_credentials, redeem_code};
use authcore::store::{CodeStore, CODE_TTL_SECONDS};

const SECRET: &[u8] = b"cfg-secret";
const NOW: u64 = 10_000;

fn client_x() -> ClientRecord {
    ClientRecord {
        client_id: vec![0xab; 64],
        secret_hash: String::new(),
        callback_uri: String::from("https://app.example.com/callback"),
        user_id: 42,
    }
}

fn valid_token_for_user_42() -> Vec<u8> {
    let claims = Claims { uid: 42, role_id: 1, iat: NOW - 10, exp: NOW + 60 };
    encode(SECRET, &claims)
}

#[test]
fn end_to_end_grant_issues_code_and_echoes_state() {
    let token = valid_token_for_user_42();
    let client = client_x();
    let begun = begin_authorization(
        SECRET,
        &token,
        NOW,
        42,
        Some(&client),
        "https://app.example.com/callback?state=xyz",
    );
    assert!(begun.is_ok());

    let mut store = CodeStore::new();
    let credentials =
        issue_credentials(&mut store, 77, NOW, String::from("anti-csrf")).expect("issue");
    assert_eq!(credentials.state, "anti-csrf");
    assert_eq!(credentials.code.len(), 128);
    assert!(credentials.code.iter().all(|b| b.is_ascii_hexdigit()));
    assert_eq!(redeem_code(&mut store, &credentials.code, NOW + 1), Ok(77));
}

#[test]
fn redirect_with_differing_path_is_params_error() {
    let token = valid_token_for_user_42();
    let client = client_x();
    let begun = begin_authorization(
        SECRET,
        &token,
        NOW,
        42,
        Some(&client),
        "https://app.example.com/other",
    );
    assert_eq!(begun, Err(Error::Params));
}

#[test]
fn redirect_on_foreign_origin_is_params_error() {
    let token = valid_token_for_user_42();
    let client = client_x();
    let begun = begin_authorization(
        SECRET,
        &token,
        NOW,
        42,
        Some(&client),
        "https://evil.example.com/callback",
    );
    assert_eq!(begun, Err(Error::Params));
}

#[test]
fn wrong_subject_is_privilege_error() {
    let token = valid_token_for_user_42();
    let client = client_x();
    let begun = begin_authorization(
        SECRET,
        &token,
        NOW,
        43,
        Some(&client),
        "https://app.example.com/callback",
    );
    assert_eq!(begun, Err(Error::Privilege));
}

#[test]
fn unknown_client_is_not_found() {
    let token = valid_token_for_user_42();
    let begun =
        begin_authorization(SECRET, &token, NOW, 42, None, "https://app.example.com/callback");
    assert_eq!(begun, Err(Error::NotFound));
}

#[test]
fn expired_claims_stop_the_grant() {
    let claims = Claims { uid: 42, role_id: 1, iat: NOW - 100, exp: NOW };
    let token = encode(SECRET, &claims);
    let client = client_x();
    let begun = begin_authorization(
        SECRET,
        &token,
        NOW,
        42,
        Some(&client),
        "https://app.example.com/callback",
    );
    assert_eq!(begun, Err(Error::Expired));
}

#[test]
fn issued_transport_code_redeems_exactly_once() {
    let mut store = CodeStore::new();
    let credentials =
        issue_credentials(&mut store, 9, NOW, String::from("s")).expect("issue");
    assert_eq!(redeem_code(&mut store, &credentials.code, NOW + 2), Ok(9));
    assert_eq!(
        redeem_code(&mut store, &credentials.code, NOW + 2),
        Err(Error::NotFound)
    );
}

#[test]
fn transport_code_past_ttl_is_not_found() {
    let mut store = CodeStore::new();
    let credentials =
        issue_credentials(&mut store, 9, NOW, String::from("s")).expect("issue");
    assert_eq!(
        redeem_code(&mut store, &credentials.code, NOW + CODE_TTL_SECONDS),
        Err(Error::NotFound)
    );
}

#[test]
fn redeem_code_rejects_non_hexadecimal() {
    let mut store = CodeStore::new();
    assert_eq!(redeem_code(&mut store, b"zz-not-hex", NOW), Err(Error::Malformed));
}
