use authcore::claims::Claims;
use authcore::errors::Error;
use authcore::flow::authorize_action;
use authcore::permissions::{ActionType, PermissionMatrix, ResourceType};
use authcore::requests::{parse_client_id, plan_search, SearchPlan};

#[test]
fn empty_matrix_denies_application_create() {
    let matrix = PermissionMatrix::new();
    assert!(!matrix.contains(1, ResourceType::Application, ActionType::CREATE));
}

#[test]
fn grant_is_honoured_only_for_its_exact_triple() {
    let mut matrix = PermissionMatrix::new();
    matrix.grant(1, ResourceType::Application, ActionType::CREATE);
    assert!(matrix.contains(1, ResourceType::Application, ActionType::CREATE));
    assert!(!matrix.contains(2, ResourceType::Application, ActionType::CREATE));
    assert!(!matrix.contains(1, ResourceType::Application, ActionType::DELETE));
    assert!(!matrix.contains(1, ResourceType::Profile, ActionType::CREATE));
}

#[test]
fn guard_denies_before_it_checks_the_subject() {
    let matrix = PermissionMatrix::new();
    let claims = Claims { uid: 42, role_id: 1, iat: 0, exp: 100 };
    assert_eq!(
        authorize_action(&matrix, &claims, 43, ResourceType::Application, ActionType::CREATE),
        Err(Error::Forbidden)
    );
}

#[test]
fn guard_distinguishes_privilege_from_forbidden() {
    let mut matrix = PermissionMatrix::new();
    matrix.grant(1, ResourceType::Application, ActionType::CREATE);
    let claims = Claims { uid: 42, role_id: 1, iat: 0, exp: 100 };
    assert_eq!(
        authorize_action(&matrix, &claims, 43, ResourceType::Application, ActionType::CREATE),
        Err(Error::Privilege)
    );
    assert_eq!(
        authorize_action(&matrix, &claims, 42, ResourceType::Application, ActionType::CREATE),
        Ok(())
    );
}

#[test]
fn client_id_parses_from_hex_transport_form() {
    assert_eq!(parse_client_id(b"00ff"), Ok(vec![0x00, 0xff]));
    assert!(matches!(parse_client_id(b"0g"), Err(Error::Malformed)));
    assert!(matches!(parse_client_id(b"abc"), Err(Error::Malformed)));
}

#[test]
fn search_by_client_id_decodes_hex() {
    match plan_search(Some(b"0a0b"), None, None) {
        Ok(SearchPlan::ByClientId(b)) => assert_eq!(b, vec![0x0a, 0x0b]),
        other => panic!("expected a client-id plan, got {:?}", other.is_ok()),
    }
}

#[test]
fn search_with_odd_hex_is_malformed() {
    assert!(matches!(plan_search(Some(b"abc"), None, None), Err(Error::Malformed)));
}

#[test]
fn search_by_open_id_and_token_decodes_both() {
    let uuid = "936da01f-9abd-4d9d-80c7-02af85c822a8";
    match plan_search(None, Some(uuid), Some(b"ff00")) {
        Ok(SearchPlan::ByOpenIdToken(u, t)) => {
            assert_eq!(
                u,
                vec![
                    0x93, 0x6d, 0xa0, 0x1f, 0x9a, 0xbd, 0x4d, 0x9d, 0x80, 0xc7, 0x02, 0xaf,
                    0x85, 0xc8, 0x22, 0xa8,
                ]
            );
            assert_eq!(t, vec![0xff, 0x00]);
        },
        other => panic!("expected an open-id plan, got {:?}", other.is_ok()),
    }
}

#[test]
fn search_with_invalid_uuid_is_params() {
    assert!(matches!(
        plan_search(None, Some("not-a-uuid"), Some(b"ff00")),
        Err(Error::Params)
    ));
}

#[test]
fn search_without_identifiers_is_params() {
    assert!(matches!(plan_search(None, None, None), Err(Error::Params)));
    assert!(matches!(plan_search(None, Some("936da01f-9abd-4d9d-80c7-02af85c822a8"), None), Err(Error::Params)));
}
