use tari_payment_engine::errors::{
    AccountApiError, AuthApiError, AuthError, PaymentGatewayError, ServerError,
};
use tari_payment_engine::outcome::OrderFlowError;
use tari_payment_engine::text::{comes_before, render_i64, render_u64, same_text};

#[test]
fn numerals() {
    assert_eq!(render_u64(0), "0");
    assert_eq!(render_u64(7), "7");
    assert_eq!(render_u64(10), "10");
    assert_eq!(render_u64(1234567890), "1234567890");
    assert_eq!(render_u64(u64::MAX), "18446744073709551615");
    assert_eq!(render_i64(0), "0");
    assert_eq!(render_i64(-1), "-1");
    assert_eq!(render_i64(i64::MAX), "9223372036854775807");
    assert_eq!(render_i64(i64::MIN), "-9223372036854775808");
}

#[test]
fn order_of_keys() {
    assert!(comes_before("", "a"));
    assert!(!comes_before("a", ""));
    assert!(!comes_before("a", "a"));
    assert!(comes_before("a", "b"));
    assert!(comes_before("a", "ab"));
    assert!(comes_before("10", "9"));
    assert!(comes_before("Z", "a"));
    assert!(comes_before("z", "é"));
    assert!(!comes_before("é", "z"));
    assert!(same_text("é", "é"));
    assert!(!same_text("e", "é"));
    assert!(same_text("", ""));
    for (a, b) in [("abc", "abd"), ("x", "xy"), ("é", "ê"), ("", "")] {
        assert_eq!(comes_before(a, b), a < b);
        assert_eq!(comes_before(b, a), b < a);
    }
}

#[test]
fn server_error_status_codes() {
    let s = || "x".to_string();
    assert_eq!(ServerError::InvalidRequestBody(s()).status_code(), 400);
    assert_eq!(ServerError::CannotCompleteRequest(s()).status_code(), 400);
    assert_eq!(ServerError::CouldNotDeserializePayload.status_code(), 400);
    assert_eq!(ServerError::CouldNotDeserializeAuthToken.status_code(), 400);
    assert_eq!(ServerError::AuthenticationError(AuthError::InvalidPublicKey).status_code(), 401);
    assert_eq!(ServerError::AuthenticationError(AuthError::InsufficientPermissions(s())).status_code(), 403);
    assert_eq!(ServerError::AuthenticationError(AuthError::ValidationError(s())).status_code(), 401);
    assert_eq!(ServerError::AuthenticationError(AuthError::PoorlyFormattedToken(s())).status_code(), 400);
    assert_eq!(ServerError::AuthenticationError(AuthError::AccountNotFound).status_code(), 403);
    assert_eq!(ServerError::AuthenticationError(AuthError::ForbiddenPeer).status_code(), 403);
    assert_eq!(ServerError::InitializeError(s()).status_code(), 500);
    assert_eq!(ServerError::BackendError(s()).status_code(), 500);
    assert_eq!(ServerError::IOError(s()).status_code(), 500);
    assert_eq!(ServerError::OrderConversionError(s()).status_code(), 500);
    assert_eq!(ServerError::ConfigurationError(s()).status_code(), 500);
    assert_eq!(ServerError::Unspecified(s()).status_code(), 500);
    assert_eq!(ServerError::CouldNotSerializeAccessToken(s()).status_code(), 400);
    assert_eq!(ServerError::InvalidRequestPath(s()).status_code(), 400);
    assert_eq!(ServerError::NoRecordFound(s()).status_code(), 404);
    assert_eq!(ServerError::InsufficientPermissions(s()).status_code(), 403);
    assert_eq!(ServerError::UnauthorizedWalletRequest.status_code(), 401);
    assert_eq!(ServerError::UnsupportedAction(s()).status_code(), 501);
}

#[test]
fn server_error_messages() {
    assert_eq!(ServerError::InitializeError("db".to_string()).message(), "Could not initialize server. db");
    assert_eq!(ServerError::CouldNotDeserializePayload.message(), "Payload deserialization error");
    assert_eq!(
        ServerError::AuthenticationError(AuthError::ForbiddenPeer).message(),
        "Authentication Error. Request was made from a forbidden peer"
    );
    assert_eq!(
        ServerError::AuthenticationError(AuthError::ValidationError("bad".to_string())).message(),
        "Authentication Error. Login token signature is invalid. bad"
    );
    assert_eq!(ServerError::NoRecordFound("o1".to_string()).message(), "The data was not found. o1");
    assert_eq!(AuthError::InvalidPublicKey.message(), "Login token contained an invalid public key.");
    assert_eq!(AuthError::AccountNotFound.message(), "User account not found.");
}

#[test]
fn error_body_is_json() {
    let e = ServerError::InvalidRequestBody("a \"quoted\"\nline \\ end".to_string());
    assert_eq!(e.error_body(), "{\"error\":\"Could not read request body: a \\\"quoted\\\"\\nline \\\\ end\"}");
    let parsed: serde_json::Value = serde_json::from_str(&e.error_body()).unwrap();
    assert_eq!(parsed["error"].as_str(), Some("Could not read request body: a \"quoted\"\nline \\ end"));
    assert_eq!(ServerError::UnauthorizedWalletRequest.error_body(), "{\"error\":\"A request was made from an unauthorized wallet.\"}");
}

fn shape(e: &ServerError) -> String {
    match e {
        ServerError::AuthenticationError(a) => format!("AuthenticationError/{a:?}"),
        other => format!("{other:?}"),
    }
}

#[test]
fn login_errors_become_server_errors() {
    assert_eq!(
        shape(&ServerError::from(AuthApiError::InvalidNonce)),
        "AuthenticationError/ValidationError(\"Nonce is not strictly increasing.\")"
    );
    assert_eq!(shape(&ServerError::from(AuthApiError::AddressNotFound)), "AuthenticationError/AccountNotFound");
    assert_eq!(
        shape(&ServerError::from(AuthApiError::RoleNotAllowed(3))),
        "AuthenticationError/InsufficientPermissions(\"User requested at least 3 roles that are not allowed\")"
    );
    assert_eq!(
        shape(&ServerError::from(AuthApiError::DatabaseError("locked".to_string()))),
        "BackendError(\"Database error: locked\")"
    );
    assert_eq!(
        shape(&ServerError::from(AuthApiError::RoleNotFound)),
        "BackendError(\"Role definitions in Database and Code have diverged. The requested role does not exist\")"
    );
}

#[test]
fn gateway_errors_become_server_errors() {
    let to_server = |e: PaymentGatewayError| ServerError::from(e);
    assert_eq!(to_server(PaymentGatewayError::AccountError(AccountApiError::InsufficientFunds)).status_code(), 400);
    assert_eq!(
        shape(&to_server(PaymentGatewayError::AccountError(AccountApiError::InsufficientFunds))),
        "CannotCompleteRequest(\"Insufficient funds.\")"
    );
    assert_eq!(
        shape(&to_server(PaymentGatewayError::AccountError(AccountApiError::OutOfRange))),
        "BackendError(\"The account cannot hold this amount.\")"
    );
    assert_eq!(to_server(PaymentGatewayError::OrderModificationNoOp).status_code(), 400);
    assert_eq!(to_server(PaymentGatewayError::OrderModificationForbidden).status_code(), 400);
    assert_eq!(
        shape(&to_server(PaymentGatewayError::OrderNotFound("o9".to_string()))),
        "NoRecordFound(\"The requested order does not exist: o9\")"
    );
    assert_eq!(to_server(PaymentGatewayError::AccountShouldExistForOrder("o9".to_string())).status_code(), 404);
    assert_eq!(to_server(PaymentGatewayError::UnsupportedAction("x".to_string())).status_code(), 400);
    assert_eq!(
        shape(&to_server(PaymentGatewayError::InvalidSignature)),
        "AuthenticationError/ValidationError(\"The signature is invalid.\")"
    );
    assert_eq!(to_server(PaymentGatewayError::InvalidSignature).status_code(), 401);
    assert_eq!(
        shape(&to_server(PaymentGatewayError::PaymentAlreadyExists("t1".to_string()))),
        "BackendError(\"Cannot insert payment, since it already exists with txid t1\")"
    );
    assert_eq!(to_server(PaymentGatewayError::IdentityConflict).status_code(), 500);
    assert_eq!(to_server(PaymentGatewayError::DatabaseError("d".to_string())).status_code(), 500);
}

#[test]
fn refusals_become_gateway_errors() {
    let text = |e: OrderFlowError| PaymentGatewayError::from_refusal(e, "id7").message();
    assert_eq!(text(OrderFlowError::OrderNotFound), "The requested order does not exist: id7");
    assert_eq!(text(OrderFlowError::PaymentNotFound), "The requested payment does not exist: id7");
    assert_eq!(text(OrderFlowError::IdentityConflict), "The customer id and the wallet address belong to different accounts.");
    assert_eq!(text(OrderFlowError::InvalidSignature), "The signature is invalid.");
    assert_eq!(text(OrderFlowError::InvalidTransition), "The status cannot change in this way.");
    assert_eq!(text(OrderFlowError::InsufficientFunds), "Insufficient funds.");
    assert_eq!(text(OrderFlowError::OutOfRange), "The account cannot hold this amount.");
    assert_eq!(text(OrderFlowError::AccountNotFound), "The account does not exist.");
    assert_eq!(text(OrderFlowError::OrderModificationForbidden), "The requested order change is forbidden.");
    assert_eq!(text(OrderFlowError::StoreFull), "Database error: The table is full.");
}
