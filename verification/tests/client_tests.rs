use authcore::client::{
    authenticate_client, create_client_credentials, protect_secret, validate_redirect_origin,
    ClientRecord, CLIENT_ID_LENGTH, CLIENT_SECRET_LENGTH,
};
use authcore::errors::Error;

const CALLBACK: &str = "https://app.example.com/callback";

fn record_with_hash(secret_hash: String) -> ClientRecord {
    ClientRecord {
        client_id: vec![7; 64],
        secret_hash,
        callback_uri: String::from(CALLBACK),
        user_id: 1,
    }
}

#[test]
fn redirect_accepts_exact_callback() {
    assert_eq!(validate_redirect_origin(CALLBACK, CALLBACK), Ok(()));
}

#[test]
fn redirect_ignores_query_string() {
    assert_eq!(
        validate_redirect_origin(CALLBACK, "https://app.example.com/callback?x=1"),
        Ok(())
    );
}

#[test]
fn redirect_ignores_fragment() {
    assert_eq!(
        validate_redirect_origin(CALLBACK, "https://app.example.com/callback#frag"),
        Ok(())
    );
}

#[test]
fn redirect_rejects_foreign_origin() {
    assert_eq!(
        validate_redirect_origin(CALLBACK, "https://evil.example.com/callback"),
        Err(Error::RedirectMismatch)
    );
}

#[test]
fn redirect_rejects_differing_path() {
    assert_eq!(
        validate_redirect_origin(CALLBACK, "https://app.example.com/callback/extra"),
        Err(Error::RedirectMismatch)
    );
}

#[test]
fn redirect_rejects_differing_port() {
    assert_eq!(
        validate_redirect_origin(CALLBACK, "https://app.example.com:8443/callback"),
        Err(Error::RedirectMismatch)
    );
}

#[test]
fn redirect_rejects_differing_scheme() {
    assert_eq!(
        validate_redirect_origin(CALLBACK, "http://app.example.com/callback"),
        Err(Error::RedirectMismatch)
    );
}

#[test]
fn redirect_rejects_opaque_origin_even_against_itself() {
    assert_eq!(
        validate_redirect_origin("foo:/cb", "foo:/cb"),
        Err(Error::RedirectMismatch)
    );
}

#[test]
fn redirect_rejects_two_opaque_origins_with_equal_paths() {
    assert_eq!(
        validate_redirect_origin("foo:/cb", "bar:/cb"),
        Err(Error::RedirectMismatch)
    );
}

#[test]
fn redirect_rejects_unparseable_target() {
    assert_eq!(
        validate_redirect_origin(CALLBACK, "not a url"),
        Err(Error::Malformed)
    );
}

#[test]
fn authenticate_missing_client_is_not_found() {
    assert!(matches!(
        authenticate_client(None, b"anything"),
        Err(Error::NotFound)
    ));
}

#[test]
fn authenticate_accepts_correct_secret() {
    let hash = protect_secret(b"hunter2-hunter2", 4).expect("hash");
    let record = record_with_hash(hash);
    match authenticate_client(Some(record), b"hunter2-hunter2") {
        Ok(c) => assert_eq!(c.user_id, 1),
        Err(e) => panic!("expected access, got {:?}", e),
    }
}

#[test]
fn authenticate_rejects_wrong_secret() {
    let hash = protect_secret(b"hunter2-hunter2", 4).expect("hash");
    let record = record_with_hash(hash);
    assert!(matches!(
        authenticate_client(Some(record), b"not-the-secret"),
        Err(Error::InvalidCredentials)
    ));
}

#[test]
fn authenticate_rejects_unusable_stored_hash() {
    let record = record_with_hash(String::from("not-a-bcrypt-hash"));
    assert!(matches!(
        authenticate_client(Some(record), b"anything"),
        Err(Error::InvalidCredentials)
    ));
}

#[test]
fn fresh_credentials_have_configured_entropy() {
    let (id, secret) = create_client_credentials().expect("entropy");
    assert_eq!(id.len(), CLIENT_ID_LENGTH);
    assert_eq!(secret.len(), CLIENT_SECRET_LENGTH);
    let (id2, _) = create_client_credentials().expect("entropy");
    assert_ne!(id, id2);
}
