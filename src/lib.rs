//! Credential and connection lifecycle of an identity service: password
//! hashing, signed bearer tokens, account registration and login, and the
//! request / accept / reject state machine of connections between users.

mod credential;
mod directory;
mod error;
mod model;
mod validation;

pub use credential::{
    argon2_phc, b64_char, b64_of_16_bytes, bearer_prefix, bearer_token, bearer_token_of, header_view, jwt_claims, jwt_of,
    hashable, lemma_bearer_round_trip, lemma_issued_token_resolves, lemma_issued_token_validates,
    now_secs, MAX_PASSWORD_BYTES, phc_verdict, resolved_identity, token_expired,
    validation_outcome, AuthService, CLOCK_LEEWAY_SECS, TOKEN_LIFETIME_SECS,
};
pub use directory::{
    account_added, answerable, answerable_at, connection_id_taken, connections_wf,
    creation_stamp, credentials_wf, email_provider, email_taken, has_credential,
    lemma_foreign_response_not_found, lemma_registered_email_conflicts,
    lemma_repeated_request_conflicts, lemma_second_response_not_found,
    lemma_newest_first_ordered, lemma_self_request_rejected, listed, login_gate, new_account_user, newest_created_first, newest_first,
    pair_taken,
    password_credential, registration_gate, request_gate, respond_gate, responded, standard_tier,
    user_id_taken, users_wf, Directory,
};
pub use error::{status_code_of, ApiError, TokenError};
pub use model::{
    other_party_of, status_text, AuthResponse, Claims, Connection, ConnectionRequest,
    ConnectionStatus, CreateUserRequest, Credential, LoginRequest, SearchQuery,
    UpdateConnectionRequest, UpdateProfileRequest, User, UserProfile,
};
pub use validation::{
    email_accepted, is_valid_email, login_valid, registration_valid, validate_login,
    validate_registration, MIN_LOGIN_PASSWORD_CHARS, MIN_NAME_CHARS, MIN_NEW_PASSWORD_CHARS,
};
