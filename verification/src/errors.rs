//! The errors that the gateway's interfaces report, what each says, and
//! the status with which the server answers.

use vstd::prelude::*;
use vstd::string::StringExecFns;
use vstd::std_specs::convert::FromSpecImpl;
use crate::outcome::OrderFlowError;
use crate::text::decimal;
use crate::text::render_u64;

verus! {

/// Why a caller was not let in.
#[derive(Debug, Clone)]
pub enum AuthError {
    InvalidPublicKey,
    InsufficientPermissions(String),
    ValidationError(String),
    PoorlyFormattedToken(String),
    AccountNotFound,
    ForbiddenPeer,
}

pub enum AuthErrorView {
    InvalidPublicKey,
    InsufficientPermissions(Seq<char>),
    ValidationError(Seq<char>),
    PoorlyFormattedToken(Seq<char>),
    AccountNotFound,
    ForbiddenPeer,
}

impl View for AuthError {
    type V = AuthErrorView;

    open spec fn view(&self) -> AuthErrorView {
        match self {
            AuthError::InvalidPublicKey => AuthErrorView::InvalidPublicKey,
            AuthError::InsufficientPermissions(s) => AuthErrorView::InsufficientPermissions(s@),
            AuthError::ValidationError(s) => AuthErrorView::ValidationError(s@),
            AuthError::PoorlyFormattedToken(s) => AuthErrorView::PoorlyFormattedToken(s@),
            AuthError::AccountNotFound => AuthErrorView::AccountNotFound,
            AuthError::ForbiddenPeer => AuthErrorView::ForbiddenPeer,
        }
    }
}

impl AuthErrorView {
    /// What the error says.
    pub open spec fn text(self) -> Seq<char> {
        match self {
            AuthErrorView::InvalidPublicKey => "Login token contained an invalid public key."@,
            AuthErrorView::InsufficientPermissions(s) => "Insufficient Permissions. "@ + s,
            AuthErrorView::ValidationError(s) => "Login token signature is invalid. "@ + s,
            AuthErrorView::PoorlyFormattedToken(s) => "Login token is not in the correct format. "@ + s,
            AuthErrorView::AccountNotFound => "User account not found."@,
            AuthErrorView::ForbiddenPeer => "Request was made from a forbidden peer"@,
        }
    }

    /// The status with which the server answers.
    pub open spec fn status(self) -> u16 {
        match self {
            AuthErrorView::InvalidPublicKey => 401,
            AuthErrorView::InsufficientPermissions(_) => 403,
            AuthErrorView::ValidationError(_) => 401,
            AuthErrorView::PoorlyFormattedToken(_) => 400,
            AuthErrorView::AccountNotFound => 403,
            AuthErrorView::ForbiddenPeer => 403,
        }
    }
}

impl AuthError {
    /// What the error says.
    pub fn message(&self) -> (r: String)
        ensures
            r@ == self@.text(),
    {
        match self {
            AuthError::InvalidPublicKey => String::from_str("Login token contained an invalid public key."),
            AuthError::InsufficientPermissions(s) => String::from_str("Insufficient Permissions. ").concat(s.as_str()),
            AuthError::ValidationError(s) => String::from_str("Login token signature is invalid. ").concat(s.as_str()),
            AuthError::PoorlyFormattedToken(s) => String::from_str("Login token is not in the correct format. ").concat(s.as_str()),
            AuthError::AccountNotFound => String::from_str("User account not found."),
            AuthError::ForbiddenPeer => String::from_str("Request was made from a forbidden peer"),
        }
    }

    /// The status with which the server answers.
    pub fn status_code(&self) -> (r: u16)
        ensures
            r == self@.status(),
    {
        match self {
            AuthError::InvalidPublicKey => 401,
            AuthError::InsufficientPermissions(_) => 403,
            AuthError::ValidationError(_) => 401,
            AuthError::PoorlyFormattedToken(_) => 400,
            AuthError::AccountNotFound => 403,
            AuthError::ForbiddenPeer => 403,
        }
    }
}

/// Why an account could not be read or changed.
#[derive(Debug)]
pub enum AccountApiError {
    DatabaseError(String),
    InsufficientFunds,
    OutOfRange,
    AccountNotFound,
}

pub enum AccountApiErrorView {
    DatabaseError(Seq<char>),
    InsufficientFunds,
    OutOfRange,
    AccountNotFound,
}

impl View for AccountApiError {
    type V = AccountApiErrorView;

    open spec fn view(&self) -> AccountApiErrorView {
        match self {
            AccountApiError::DatabaseError(s) => AccountApiErrorView::DatabaseError(s@),
            AccountApiError::InsufficientFunds => AccountApiErrorView::InsufficientFunds,
            AccountApiError::OutOfRange => AccountApiErrorView::OutOfRange,
            AccountApiError::AccountNotFound => AccountApiErrorView::AccountNotFound,
        }
    }
}

impl AccountApiErrorView {
    /// What the error says.
    pub open spec fn text(self) -> Seq<char> {
        match self {
            AccountApiErrorView::DatabaseError(s) => "Database error: "@ + s,
            AccountApiErrorView::InsufficientFunds => "Insufficient funds."@,
            AccountApiErrorView::OutOfRange => "The account cannot hold this amount."@,
            AccountApiErrorView::AccountNotFound => "The account does not exist."@,
        }
    }
}

impl AccountApiError {
    /// What the error says.
    pub fn message(&self) -> (r: String)
        ensures
            r@ == self@.text(),
    {
        match self {
            AccountApiError::DatabaseError(s) => String::from_str("Database error: ").concat(s.as_str()),
            AccountApiError::InsufficientFunds => String::from_str("Insufficient funds."),
            AccountApiError::OutOfRange => String::from_str("The account cannot hold this amount."),
            AccountApiError::AccountNotFound => String::from_str("The account does not exist."),
        }
    }
}

/// Why a login was refused.
#[derive(Debug)]
pub enum AuthApiError {
    InvalidNonce,
    AddressNotFound,
    RoleNotAllowed(u64),
    DatabaseError(String),
    RoleNotFound,
}

pub enum AuthApiErrorView {
    InvalidNonce,
    AddressNotFound,
    RoleNotAllowed(u64),
    DatabaseError(Seq<char>),
    RoleNotFound,
}

impl View for AuthApiError {
    type V = AuthApiErrorView;

    open spec fn view(&self) -> AuthApiErrorView {
        match self {
            AuthApiError::InvalidNonce => AuthApiErrorView::InvalidNonce,
            AuthApiError::AddressNotFound => AuthApiErrorView::AddressNotFound,
            AuthApiError::RoleNotAllowed(n) => AuthApiErrorView::RoleNotAllowed(*n),
            AuthApiError::DatabaseError(s) => AuthApiErrorView::DatabaseError(s@),
            AuthApiError::RoleNotFound => AuthApiErrorView::RoleNotFound,
        }
    }
}

impl AuthApiErrorView {
    /// What the error says.
    pub open spec fn text(self) -> Seq<char> {
        match self {
            AuthApiErrorView::InvalidNonce => "Nonce is not strictly increasing."@,
            AuthApiErrorView::AddressNotFound => "Address not found."@,
            AuthApiErrorView::RoleNotAllowed(n) => "User requested at least "@ + decimal(n as nat) + " roles that are not allowed"@,
            AuthApiErrorView::DatabaseError(s) => "Database error: "@ + s,
            AuthApiErrorView::RoleNotFound => "The requested role does not exist"@,
        }
    }
}

impl AuthApiError {
    /// What the error says.
    pub fn message(&self) -> (r: String)
        ensures
            r@ == self@.text(),
    {
        match self {
            AuthApiError::InvalidNonce => String::from_str("Nonce is not strictly increasing."),
            AuthApiError::AddressNotFound => String::from_str("Address not found."),
            AuthApiError::RoleNotAllowed(n) => String::from_str("User requested at least ").concat(
                render_u64(*n).as_str(),
            ).concat(" roles that are not allowed"),
            AuthApiError::DatabaseError(s) => String::from_str("Database error: ").concat(s.as_str()),
            AuthApiError::RoleNotFound => String::from_str("The requested role does not exist"),
        }
    }
}

/// Why the gateway refused a request.
#[derive(Debug)]
pub enum PaymentGatewayError {
    DatabaseError(String),
    OrderAlreadyExists(String),
    PaymentAlreadyExists(String),
    AccountError(AccountApiError),
    PaymentStatusUpdateError(String),
    OrderNotFound(String),
    PaymentNotFound(String),
    OrderModificationNoOp,
    OrderModificationForbidden,
    AccountShouldExistForOrder(String),
    UnsupportedAction(String),
    InvalidSignature,
    IdentityConflict,
    InvalidTransition,
}

pub enum PaymentGatewayErrorView {
    DatabaseError(Seq<char>),
    OrderAlreadyExists(Seq<char>),
    PaymentAlreadyExists(Seq<char>),
    AccountError(AccountApiErrorView),
    PaymentStatusUpdateError(Seq<char>),
    OrderNotFound(Seq<char>),
    PaymentNotFound(Seq<char>),
    OrderModificationNoOp,
    OrderModificationForbidden,
    AccountShouldExistForOrder(Seq<char>),
    UnsupportedAction(Seq<char>),
    InvalidSignature,
    IdentityConflict,
    InvalidTransition,
}

impl View for PaymentGatewayError {
    type V = PaymentGatewayErrorView;

    open spec fn view(&self) -> PaymentGatewayErrorView {
        match self {
            PaymentGatewayError::DatabaseError(s) => PaymentGatewayErrorView::DatabaseError(s@),
            PaymentGatewayError::OrderAlreadyExists(s) => PaymentGatewayErrorView::OrderAlreadyExists(s@),
            PaymentGatewayError::PaymentAlreadyExists(s) => PaymentGatewayErrorView::PaymentAlreadyExists(s@),
            PaymentGatewayError::AccountError(s) => PaymentGatewayErrorView::AccountError(s@),
            PaymentGatewayError::PaymentStatusUpdateError(s) => PaymentGatewayErrorView::PaymentStatusUpdateError(s@),
            PaymentGatewayError::OrderNotFound(s) => PaymentGatewayErrorView::OrderNotFound(s@),
            PaymentGatewayError::PaymentNotFound(s) => PaymentGatewayErrorView::PaymentNotFound(s@),
            PaymentGatewayError::OrderModificationNoOp => PaymentGatewayErrorView::OrderModificationNoOp,
            PaymentGatewayError::OrderModificationForbidden => PaymentGatewayErrorView::OrderModificationForbidden,
            PaymentGatewayError::AccountShouldExistForOrder(s) => PaymentGatewayErrorView::AccountShouldExistForOrder(s@),
            PaymentGatewayError::UnsupportedAction(s) => PaymentGatewayErrorView::UnsupportedAction(s@),
            PaymentGatewayError::InvalidSignature => PaymentGatewayErrorView::InvalidSignature,
            PaymentGatewayError::IdentityConflict => PaymentGatewayErrorView::IdentityConflict,
            PaymentGatewayError::InvalidTransition => PaymentGatewayErrorView::InvalidTransition,
        }
    }
}

impl PaymentGatewayErrorView {
    /// What the error says.
    pub open spec fn text(self) -> Seq<char> {
        match self {
            PaymentGatewayErrorView::DatabaseError(s) => "Database error: "@ + s,
            PaymentGatewayErrorView::OrderAlreadyExists(s) => "Cannot insert order, since it already exists with id "@ + s,
            PaymentGatewayErrorView::PaymentAlreadyExists(s) => "Cannot insert payment, since it already exists with txid "@ + s,
            PaymentGatewayErrorView::AccountError(e) => e.text(),
            PaymentGatewayErrorView::PaymentStatusUpdateError(s) => "Could not update the payment status. "@ + s,
            PaymentGatewayErrorView::OrderNotFound(s) => "The requested order does not exist: "@ + s,
            PaymentGatewayErrorView::PaymentNotFound(s) => "The requested payment does not exist: "@ + s,
            PaymentGatewayErrorView::OrderModificationNoOp => "The requested order change would result in a no-op."@,
            PaymentGatewayErrorView::OrderModificationForbidden => "The requested order change is forbidden."@,
            PaymentGatewayErrorView::AccountShouldExistForOrder(s) => "An account should exist for order "@ + s,
            PaymentGatewayErrorView::UnsupportedAction(s) => "This action is not supported. "@ + s,
            PaymentGatewayErrorView::InvalidSignature => "The signature is invalid."@,
            PaymentGatewayErrorView::IdentityConflict => "The customer id and the wallet address belong to different accounts."@,
            PaymentGatewayErrorView::InvalidTransition => "The status cannot change in this way."@,
        }
    }

    /// The error that the gateway reports where the engine refused a step
    /// on `subject`, the id of an order or a payment.
    pub open spec fn refusal(e: OrderFlowError, subject: Seq<char>) -> PaymentGatewayErrorView {
        match e {
            OrderFlowError::IdentityConflict => PaymentGatewayErrorView::IdentityConflict,
            OrderFlowError::InvalidSignature => PaymentGatewayErrorView::InvalidSignature,
            OrderFlowError::OrderNotFound => PaymentGatewayErrorView::OrderNotFound(subject),
            OrderFlowError::PaymentNotFound => PaymentGatewayErrorView::PaymentNotFound(subject),
            OrderFlowError::AccountNotFound => PaymentGatewayErrorView::AccountError(
                AccountApiErrorView::AccountNotFound,
            ),
            OrderFlowError::InvalidTransition => PaymentGatewayErrorView::InvalidTransition,
            OrderFlowError::InsufficientFunds => PaymentGatewayErrorView::AccountError(
                AccountApiErrorView::InsufficientFunds,
            ),
            OrderFlowError::OutOfRange => PaymentGatewayErrorView::AccountError(
                AccountApiErrorView::OutOfRange,
            ),
            OrderFlowError::OrderModificationForbidden => PaymentGatewayErrorView::OrderModificationForbidden,
            OrderFlowError::StoreFull => PaymentGatewayErrorView::DatabaseError("The table is full."@),
        }
    }
}

impl PaymentGatewayError {
    /// What the error says.
    pub fn message(&self) -> (r: String)
        ensures
            r@ == self@.text(),
    {
        match self {
            PaymentGatewayError::DatabaseError(s) => String::from_str("Database error: ").concat(s.as_str()),
            PaymentGatewayError::OrderAlreadyExists(s) => String::from_str("Cannot insert order, since it already exists with id ").concat(s.as_str()),
            PaymentGatewayError::PaymentAlreadyExists(s) => String::from_str("Cannot insert payment, since it already exists with txid ").concat(s.as_str()),
            PaymentGatewayError::AccountError(e) => e.message(),
            PaymentGatewayError::PaymentStatusUpdateError(s) => String::from_str("Could not update the payment status. ").concat(s.as_str()),
            PaymentGatewayError::OrderNotFound(s) => String::from_str("The requested order does not exist: ").concat(s.as_str()),
            PaymentGatewayError::PaymentNotFound(s) => String::from_str("The requested payment does not exist: ").concat(s.as_str()),
            PaymentGatewayError::OrderModificationNoOp => String::from_str("The requested order change would result in a no-op."),
            PaymentGatewayError::OrderModificationForbidden => String::from_str("The requested order change is forbidden."),
            PaymentGatewayError::AccountShouldExistForOrder(s) => String::from_str("An account should exist for order ").concat(s.as_str()),
            PaymentGatewayError::UnsupportedAction(s) => String::from_str("This action is not supported. ").concat(s.as_str()),
            PaymentGatewayError::InvalidSignature => String::from_str("The signature is invalid."),
            PaymentGatewayError::IdentityConflict => String::from_str("The customer id and the wallet address belong to different accounts."),
            PaymentGatewayError::InvalidTransition => String::from_str("The status cannot change in this way."),
        }
    }

    /// The error to report where the engine refused a step on `subject`,
    /// the id of an order or a payment.
    pub fn from_refusal(e: OrderFlowError, subject: &str) -> (r: PaymentGatewayError)
        ensures
            r@ == PaymentGatewayErrorView::refusal(e, subject@),
    {
        match e {
            OrderFlowError::IdentityConflict => PaymentGatewayError::IdentityConflict,
            OrderFlowError::InvalidSignature => PaymentGatewayError::InvalidSignature,
            OrderFlowError::OrderNotFound => PaymentGatewayError::OrderNotFound(
                String::from_str(subject),
            ),
            OrderFlowError::PaymentNotFound => PaymentGatewayError::PaymentNotFound(
                String::from_str(subject),
            ),
            OrderFlowError::AccountNotFound => PaymentGatewayError::AccountError(
                AccountApiError::AccountNotFound,
            ),
            OrderFlowError::InvalidTransition => PaymentGatewayError::InvalidTransition,
            OrderFlowError::InsufficientFunds => PaymentGatewayError::AccountError(
                AccountApiError::InsufficientFunds,
            ),
            OrderFlowError::OutOfRange => PaymentGatewayError::AccountError(
                AccountApiError::OutOfRange,
            ),
            OrderFlowError::OrderModificationForbidden => PaymentGatewayError::OrderModificationForbidden,
            OrderFlowError::StoreFull => PaymentGatewayError::DatabaseError(
                String::from_str("The table is full."),
            ),
        }
    }
}

/// What the server reports to a caller.
#[derive(Debug)]
pub enum ServerError {
    InitializeError(String),
    BackendError(String),
    CouldNotDeserializePayload,
    CouldNotDeserializeAuthToken,
    InvalidRequestBody(String),
    InvalidRequestPath(String),
    IOError(String),
    OrderConversionError(String),
    ConfigurationError(String),
    Unspecified(String),
    AuthenticationError(AuthError),
    CouldNotSerializeAccessToken(String),
    NoRecordFound(String),
    InsufficientPermissions(String),
    UnauthorizedWalletRequest,
    CannotCompleteRequest(String),
    UnsupportedAction(String),
}

pub enum ServerErrorView {
    InitializeError(Seq<char>),
    BackendError(Seq<char>),
    CouldNotDeserializePayload,
    CouldNotDeserializeAuthToken,
    InvalidRequestBody(Seq<char>),
    InvalidRequestPath(Seq<char>),
    IOError(Seq<char>),
    OrderConversionError(Seq<char>),
    ConfigurationError(Seq<char>),
    Unspecified(Seq<char>),
    AuthenticationError(AuthErrorView),
    CouldNotSerializeAccessToken(Seq<char>),
    NoRecordFound(Seq<char>),
    InsufficientPermissions(Seq<char>),
    UnauthorizedWalletRequest,
    CannotCompleteRequest(Seq<char>),
    UnsupportedAction(Seq<char>),
}

impl View for ServerError {
    type V = ServerErrorView;

    open spec fn view(&self) -> ServerErrorView {
        match self {
            ServerError::InitializeError(s) => ServerErrorView::InitializeError(s@),
            ServerError::BackendError(s) => ServerErrorView::BackendError(s@),
            ServerError::CouldNotDeserializePayload => ServerErrorView::CouldNotDeserializePayload,
            ServerError::CouldNotDeserializeAuthToken => ServerErrorView::CouldNotDeserializeAuthToken,
            ServerError::InvalidRequestBody(s) => ServerErrorView::InvalidRequestBody(s@),
            ServerError::InvalidRequestPath(s) => ServerErrorView::InvalidRequestPath(s@),
            ServerError::IOError(s) => ServerErrorView::IOError(s@),
            ServerError::OrderConversionError(s) => ServerErrorView::OrderConversionError(s@),
            ServerError::ConfigurationError(s) => ServerErrorView::ConfigurationError(s@),
            ServerError::Unspecified(s) => ServerErrorView::Unspecified(s@),
            ServerError::AuthenticationError(s) => ServerErrorView::AuthenticationError(s@),
            ServerError::CouldNotSerializeAccessToken(s) => ServerErrorView::CouldNotSerializeAccessToken(s@),
            ServerError::NoRecordFound(s) => ServerErrorView::NoRecordFound(s@),
            ServerError::InsufficientPermissions(s) => ServerErrorView::InsufficientPermissions(s@),
            ServerError::UnauthorizedWalletRequest => ServerErrorView::UnauthorizedWalletRequest,
            ServerError::CannotCompleteRequest(s) => ServerErrorView::CannotCompleteRequest(s@),
            ServerError::UnsupportedAction(s) => ServerErrorView::UnsupportedAction(s@),
        }
    }
}

impl ServerErrorView {
    /// What the error says.
    pub open spec fn text(self) -> Seq<char> {
        match self {
            ServerErrorView::InitializeError(s) => "Could not initialize server. "@ + s,
            ServerErrorView::BackendError(s) => "An error occurred on the backend of the server. "@ + s,
            ServerErrorView::CouldNotDeserializePayload => "Payload deserialization error"@,
            ServerErrorView::CouldNotDeserializeAuthToken => "Auth token signature invalid or not provided"@,
            ServerErrorView::InvalidRequestBody(s) => "Could not read request body: "@ + s,
            ServerErrorView::InvalidRequestPath(s) => "Could not read request path: "@ + s,
            ServerErrorView::IOError(s) => "An I/O error happened in the server. "@ + s,
            ServerErrorView::OrderConversionError(s) => "Order conversion error. "@ + s,
            ServerErrorView::ConfigurationError(s) => "Invalid server configuration. "@ + s,
            ServerErrorView::Unspecified(s) => "UnspecifiedError. "@ + s,
            ServerErrorView::AuthenticationError(e) => "Authentication Error. "@ + e.text(),
            ServerErrorView::CouldNotSerializeAccessToken(s) => "Could not serialize access token. "@ + s,
            ServerErrorView::NoRecordFound(s) => "The data was not found. "@ + s,
            ServerErrorView::InsufficientPermissions(s) => "Insufficient Permissions. "@ + s,
            ServerErrorView::UnauthorizedWalletRequest => "A request was made from an unauthorized wallet."@,
            ServerErrorView::CannotCompleteRequest(s) => "Cannot complete this request. "@ + s,
            ServerErrorView::UnsupportedAction(s) => "This endpoint is not supported on this configuration. "@ + s,
        }
    }

    /// The status with which the server answers.
    pub open spec fn status(self) -> u16 {
        match self {
            ServerErrorView::InitializeError(_) => 500,
            ServerErrorView::BackendError(_) => 500,
            ServerErrorView::CouldNotDeserializePayload => 400,
            ServerErrorView::CouldNotDeserializeAuthToken => 400,
            ServerErrorView::InvalidRequestBody(_) => 400,
            ServerErrorView::InvalidRequestPath(_) => 400,
            ServerErrorView::IOError(_) => 500,
            ServerErrorView::OrderConversionError(_) => 500,
            ServerErrorView::ConfigurationError(_) => 500,
            ServerErrorView::Unspecified(_) => 500,
            ServerErrorView::AuthenticationError(e) => e.status(),
            ServerErrorView::CouldNotSerializeAccessToken(_) => 400,
            ServerErrorView::NoRecordFound(_) => 404,
            ServerErrorView::InsufficientPermissions(_) => 403,
            ServerErrorView::UnauthorizedWalletRequest => 401,
            ServerErrorView::CannotCompleteRequest(_) => 400,
            ServerErrorView::UnsupportedAction(_) => 501,
        }
    }

    /// What the server makes of a refused login.
    pub open spec fn of_login(e: AuthApiErrorView) -> ServerErrorView {
        match e {
            AuthApiErrorView::InvalidNonce => ServerErrorView::AuthenticationError(
                AuthErrorView::ValidationError(e.text()),
            ),
            AuthApiErrorView::AddressNotFound => ServerErrorView::AuthenticationError(
                AuthErrorView::AccountNotFound,
            ),
            AuthApiErrorView::RoleNotAllowed(_) => ServerErrorView::AuthenticationError(
                AuthErrorView::InsufficientPermissions(e.text()),
            ),
            AuthApiErrorView::DatabaseError(d) => ServerErrorView::BackendError(
                "Database error: "@ + d,
            ),
            AuthApiErrorView::RoleNotFound => ServerErrorView::BackendError(
                "Role definitions in Database and Code have diverged. "@ + e.text(),
            ),
        }
    }

    /// What the server makes of a request that the gateway refused.
    pub open spec fn of_gateway(e: PaymentGatewayErrorView) -> ServerErrorView {
        match e {
            PaymentGatewayErrorView::AccountError(AccountApiErrorView::InsufficientFunds) => ServerErrorView::CannotCompleteRequest(
                e.text(),
            ),
            PaymentGatewayErrorView::OrderModificationNoOp => ServerErrorView::CannotCompleteRequest(
                e.text(),
            ),
            PaymentGatewayErrorView::OrderModificationForbidden => ServerErrorView::CannotCompleteRequest(
                e.text(),
            ),
            PaymentGatewayErrorView::AccountShouldExistForOrder(_) => ServerErrorView::NoRecordFound(
                e.text(),
            ),
            PaymentGatewayErrorView::OrderNotFound(_) => ServerErrorView::NoRecordFound(e.text()),
            PaymentGatewayErrorView::UnsupportedAction(_) => ServerErrorView::CannotCompleteRequest(
                e.text(),
            ),
            PaymentGatewayErrorView::InvalidSignature => ServerErrorView::AuthenticationError(
                AuthErrorView::ValidationError(e.text()),
            ),
            _ => ServerErrorView::BackendError(e.text()),
        }
    }
}

impl ServerError {
    /// What the error says.
    pub fn message(&self) -> (r: String)
        ensures
            r@ == self@.text(),
    {
        match self {
            ServerError::InitializeError(s) => String::from_str("Could not initialize server. ").concat(s.as_str()),
            ServerError::BackendError(s) => String::from_str("An error occurred on the backend of the server. ").concat(s.as_str()),
            ServerError::CouldNotDeserializePayload => String::from_str("Payload deserialization error"),
            ServerError::CouldNotDeserializeAuthToken => String::from_str("Auth token signature invalid or not provided"),
            ServerError::InvalidRequestBody(s) => String::from_str("Could not read request body: ").concat(s.as_str()),
            ServerError::InvalidRequestPath(s) => String::from_str("Could not read request path: ").concat(s.as_str()),
            ServerError::IOError(s) => String::from_str("An I/O error happened in the server. ").concat(s.as_str()),
            ServerError::OrderConversionError(s) => String::from_str("Order conversion error. ").concat(s.as_str()),
            ServerError::ConfigurationError(s) => String::from_str("Invalid server configuration. ").concat(s.as_str()),
            ServerError::Unspecified(s) => String::from_str("UnspecifiedError. ").concat(s.as_str()),
            ServerError::AuthenticationError(e) => String::from_str("Authentication Error. ").concat(e.message().as_str()),
            ServerError::CouldNotSerializeAccessToken(s) => String::from_str("Could not serialize access token. ").concat(s.as_str()),
            ServerError::NoRecordFound(s) => String::from_str("The data was not found. ").concat(s.as_str()),
            ServerError::InsufficientPermissions(s) => String::from_str("Insufficient Permissions. ").concat(s.as_str()),
            ServerError::UnauthorizedWalletRequest => String::from_str("A request was made from an unauthorized wallet."),
            ServerError::CannotCompleteRequest(s) => String::from_str("Cannot complete this request. ").concat(s.as_str()),
            ServerError::UnsupportedAction(s) => String::from_str("This endpoint is not supported on this configuration. ").concat(s.as_str()),
        }
    }

    /// The status with which the server answers.
    pub fn status_code(&self) -> (r: u16)
        ensures
            r == self@.status(),
            400 <= r < 600,
    {
        match self {
            ServerError::InitializeError(_) => 500,
            ServerError::BackendError(_) => 500,
            ServerError::CouldNotDeserializePayload => 400,
            ServerError::CouldNotDeserializeAuthToken => 400,
            ServerError::InvalidRequestBody(_) => 400,
            ServerError::InvalidRequestPath(_) => 400,
            ServerError::IOError(_) => 500,
            ServerError::OrderConversionError(_) => 500,
            ServerError::ConfigurationError(_) => 500,
            ServerError::Unspecified(_) => 500,
            ServerError::AuthenticationError(e) => e.status_code(),
            ServerError::CouldNotSerializeAccessToken(_) => 400,
            ServerError::NoRecordFound(_) => 404,
            ServerError::InsufficientPermissions(_) => 403,
            ServerError::UnauthorizedWalletRequest => 401,
            ServerError::CannotCompleteRequest(_) => 400,
            ServerError::UnsupportedAction(_) => 501,
        }
    }

    /// The body of the answer: a JSON object whose one member, `error`,
    /// holds what the error says.
    pub fn error_body(&self) -> (r: String)
        ensures
            r@ == "{\"error\":"@ + json_string(self@.text()) + "}"@,
    {
        let text = self.message();
        let quoted = to_json_string(text.as_str());
        String::from_str("{\"error\":").concat(quoted.as_str()).concat("}")
    }
}

/// What `serde_json` writes for a JSON string that holds `text`: the text
/// between double quotes, with the characters that JSON cannot hold as they
/// are written as escapes.
pub uninterp spec fn json_string(text: Seq<char>) -> Seq<char>;

/// Calls `serde_json::Value::to_string` on the JSON string that holds
/// `text`. The contract only names the result: it depends on the text
/// alone.
#[verifier::external_body]
fn to_json_string(text: &str) -> (r: String)
    ensures
        r@ == json_string(text@),
{
    serde_json::Value::String(text.to_string()).to_string()
}

impl From<AuthApiError> for ServerError {
    fn from(e: AuthApiError) -> (r: ServerError)
        ensures
            r@ == ServerErrorView::of_login(e@),
    {
        match e {
            AuthApiError::InvalidNonce => ServerError::AuthenticationError(
                AuthError::ValidationError(e.message()),
            ),
            AuthApiError::AddressNotFound => ServerError::AuthenticationError(
                AuthError::AccountNotFound,
            ),
            AuthApiError::RoleNotAllowed(_) => ServerError::AuthenticationError(
                AuthError::InsufficientPermissions(e.message()),
            ),
            AuthApiError::DatabaseError(d) => ServerError::BackendError(
                String::from_str("Database error: ").concat(d.as_str()),
            ),
            AuthApiError::RoleNotFound => ServerError::BackendError(
                String::from_str("Role definitions in Database and Code have diverged. ").concat(
                    e.message().as_str(),
                ),
            ),
        }
    }
}

/// The conversion is stated on `from` itself, over what the errors hold:
/// two texts with the same characters need not be the same value.
impl FromSpecImpl<AuthApiError> for ServerError {
    open spec fn obeys_from_spec() -> bool {
        false
    }

    open spec fn from_spec(e: AuthApiError) -> ServerError {
        ServerError::CouldNotDeserializePayload
    }
}

impl From<PaymentGatewayError> for ServerError {
    fn from(e: PaymentGatewayError) -> (r: ServerError)
        ensures
            r@ == ServerErrorView::of_gateway(e@),
    {
        match &e {
            PaymentGatewayError::AccountError(AccountApiError::InsufficientFunds) => ServerError::CannotCompleteRequest(
                e.message(),
            ),
            PaymentGatewayError::OrderModificationNoOp => ServerError::CannotCompleteRequest(
                e.message(),
            ),
            PaymentGatewayError::OrderModificationForbidden => ServerError::CannotCompleteRequest(
                e.message(),
            ),
            PaymentGatewayError::AccountShouldExistForOrder(_)
            | PaymentGatewayError::OrderNotFound(_) => ServerError::NoRecordFound(e.message()),
            PaymentGatewayError::UnsupportedAction(_) => ServerError::CannotCompleteRequest(
                e.message(),
            ),
            PaymentGatewayError::InvalidSignature => ServerError::AuthenticationError(
                AuthError::ValidationError(e.message()),
            ),
            _ => ServerError::BackendError(e.message()),
        }
    }
}

/// The conversion is stated on `from` itself, over what the errors hold.
impl FromSpecImpl<PaymentGatewayError> for ServerError {
    open spec fn obeys_from_spec() -> bool {
        false
    }

    open spec fn from_spec(e: PaymentGatewayError) -> ServerError {
        ServerError::CouldNotDeserializePayload
    }
}

} // verus!
