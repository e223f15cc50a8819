use truelink::{
    ApiError, AuthResponse, AuthService, ConnectionStatus, CreateUserRequest, Directory,
    LoginRequest,
};

const NOW: u64 = 1_700_000_000;

fn service() -> AuthService {
    AuthService::new("directory-test-secret".to_string())
}

fn signup(email: &str, name: &str, password: &str) -> CreateUserRequest {
    CreateUserRequest {
        email: email.to_string(),
        full_name: name.to_string(),
        password: password.to_string(),
    }
}

fn login_req(email: &str, password: &str) -> LoginRequest {
    LoginRequest { email: email.to_string(), password: password.to_string() }
}

fn register(dir: &mut Directory, auth: &AuthService, email: &str, id: u128) -> AuthResponse {
    dir.register(auth, &signup(email, "Some User", "password1"), id, NOW).unwrap()
}

#[test]
fn register_then_login_gives_token_for_the_user() {
    let auth = service();
    let mut dir = Directory::new();
    let created = dir.register(&auth, &signup("a@x.com", "Alice", "pw123456"), 11, NOW).unwrap();
    assert_eq!(created.user.id, 11);
    assert_eq!(created.user.email, "a@x.com");
    assert_eq!(created.user.full_name, "Alice");
    assert_eq!(created.user.verification_tier, "standard");
    assert!(!created.user.email_verified);
    assert_eq!(created.user.profile_picture_url, None);
    assert_eq!(created.user.created_at, NOW);
    let logged = dir.login(&auth, &login_req("a@x.com", "pw123456"), NOW + 5).unwrap();
    let claims = auth.validate_token_at(&logged.token, NOW + 5).unwrap();
    assert_eq!(claims.sub, created.user.id);
    assert_eq!(claims.email, "a@x.com");
    assert_eq!(logged.user.id, 11);
    let first = auth.validate_token_at(&created.token, NOW).unwrap();
    assert_eq!(first.sub, 11);
}

#[test]
fn second_registration_of_an_email_conflicts() {
    let auth = service();
    let mut dir = Directory::new();
    register(&mut dir, &auth, "dup@x.com", 1);
    let again = dir.register(&auth, &signup("dup@x.com", "Other Name", "otherpass1"), 2, NOW + 1);
    assert_eq!(again.err(), Some(ApiError::Conflict));
    assert_eq!(dir.user_count(), 1);
    let kept = dir.user_by_email(&"dup@x.com".to_string()).unwrap();
    assert_eq!(kept.id, 1);
    assert_eq!(kept.full_name, "Some User");
    assert_eq!(kept.created_at, NOW);
    assert!(dir.user(2).is_none());
    assert!(dir.login(&auth, &login_req("dup@x.com", "password1"), NOW).is_ok());
}

#[test]
fn invalid_registration_stores_nothing() {
    let auth = service();
    let mut dir = Directory::new();
    let r = dir.register(&auth, &signup("no-at-sign", "Alice", "pw123456"), 1, NOW);
    assert_eq!(r.err(), Some(ApiError::Validation));
    let r = dir.register(&auth, &signup("a@x.com", "Alice", "short"), 1, NOW);
    assert_eq!(r.err(), Some(ApiError::Validation));
    assert_eq!(dir.user_count(), 0);
}

#[test]
fn taken_user_id_is_internal() {
    let auth = service();
    let mut dir = Directory::new();
    register(&mut dir, &auth, "one@x.com", 1);
    let r = dir.register(&auth, &signup("two@x.com", "Bob", "password2"), 1, NOW);
    assert_eq!(r.err(), Some(ApiError::Internal));
    assert_eq!(dir.user_count(), 1);
}

#[test]
fn insert_account_is_all_or_nothing() {
    let mut dir = Directory::new();
    let u = dir
        .insert_account(3, &"z@x.com".to_string(), &"Zed".to_string(), "hash".to_string(), NOW)
        .unwrap();
    assert_eq!(u.id, 3);
    let again = dir.insert_account(4, &"z@x.com".to_string(), &"Zed".to_string(), "h".to_string(), NOW);
    assert_eq!(again.err(), Some(ApiError::Conflict));
    assert_eq!(dir.user_count(), 1);
}

#[test]
fn login_failures_look_the_same() {
    let auth = service();
    let mut dir = Directory::new();
    register(&mut dir, &auth, "b@x.com", 1);
    let wrong = dir.login(&auth, &login_req("b@x.com", "password2"), NOW);
    assert_eq!(wrong.err(), Some(ApiError::Unauthorized));
    let unknown = dir.login(&auth, &login_req("nobody@x.com", "password1"), NOW);
    assert_eq!(unknown.err(), Some(ApiError::Unauthorized));
    let bad = dir.login(&auth, &login_req("b@x.com", "pw"), NOW);
    assert_eq!(bad.err(), Some(ApiError::Validation));
}

#[test]
fn account_without_usable_hash_fails_inside() {
    let auth = service();
    let mut dir = Directory::new();
    dir.insert_account(8, &"h@x.com".to_string(), &"Hal".to_string(), "garbage".to_string(), NOW)
        .unwrap();
    let r = dir.login(&auth, &login_req("h@x.com", "password1"), NOW);
    assert_eq!(r.err(), Some(ApiError::Internal));
}

#[test]
fn self_request_is_bad_request_even_for_unknown_user() {
    let auth = service();
    let mut dir = Directory::new();
    assert_eq!(dir.request_connection(Some(99), 99, 500, NOW).err(), Some(ApiError::BadRequest));
    register(&mut dir, &auth, "a@x.com", 1);
    assert_eq!(dir.request_connection(Some(1), 1, 500, NOW).err(), Some(ApiError::BadRequest));
    assert_eq!(dir.connection_count(), 0);
}

#[test]
fn request_needs_identity_and_existing_receiver() {
    let auth = service();
    let mut dir = Directory::new();
    register(&mut dir, &auth, "a@x.com", 1);
    assert_eq!(dir.request_connection(None, 1, 500, NOW).err(), Some(ApiError::Unauthorized));
    assert_eq!(dir.request_connection(Some(1), 2, 500, NOW).err(), Some(ApiError::NotFound));
    assert_eq!(dir.connection_count(), 0);
}

#[test]
fn repeated_request_conflicts_and_keeps_one_row() {
    let auth = service();
    let mut dir = Directory::new();
    register(&mut dir, &auth, "a@x.com", 1);
    register(&mut dir, &auth, "b@x.com", 2);
    let c = dir.request_connection(Some(1), 2, 100, NOW).unwrap();
    assert_eq!(c.id, 100);
    assert_eq!(c.sender_id, 1);
    assert_eq!(c.receiver_id, 2);
    assert_eq!(c.status, ConnectionStatus::Pending);
    let again = dir.request_connection(Some(1), 2, 101, NOW + 1);
    assert_eq!(again.err(), Some(ApiError::Conflict));
    assert_eq!(dir.connection_count(), 1);
    assert_eq!(dir.connection(100).unwrap().status, ConnectionStatus::Pending);
    assert!(dir.connection(101).is_none());
    // the reverse direction is a different ordered pair
    assert!(dir.request_connection(Some(2), 1, 102, NOW + 2).is_ok());
    assert_eq!(dir.connection_count(), 2);
}

#[test]
fn taken_connection_id_is_internal() {
    let auth = service();
    let mut dir = Directory::new();
    register(&mut dir, &auth, "a@x.com", 1);
    register(&mut dir, &auth, "b@x.com", 2);
    register(&mut dir, &auth, "c@x.com", 3);
    dir.request_connection(Some(1), 2, 100, NOW).unwrap();
    assert_eq!(dir.request_connection(Some(1), 3, 100, NOW).err(), Some(ApiError::Internal));
}

#[test]
fn only_the_receiver_may_respond() {
    let auth = service();
    let mut dir = Directory::new();
    register(&mut dir, &auth, "a@x.com", 1);
    register(&mut dir, &auth, "b@x.com", 2);
    register(&mut dir, &auth, "c@x.com", 3);
    dir.request_connection(Some(1), 2, 100, NOW).unwrap();
    let by_sender = dir.respond(Some(1), 100, ConnectionStatus::Accepted, NOW + 1);
    assert_eq!(by_sender.err(), Some(ApiError::NotFound));
    let by_stranger = dir.respond(Some(3), 100, ConnectionStatus::Accepted, NOW + 1);
    assert_eq!(by_stranger.err(), Some(ApiError::NotFound));
    let missing = dir.respond(Some(2), 555, ConnectionStatus::Accepted, NOW + 1);
    assert_eq!(missing.err(), Some(ApiError::NotFound));
    let anonymous = dir.respond(None, 100, ConnectionStatus::Accepted, NOW + 1);
    assert_eq!(anonymous.err(), Some(ApiError::Unauthorized));
    let c = dir.connection(100).unwrap();
    assert_eq!(c.status, ConnectionStatus::Pending);
    assert_eq!(c.updated_at, NOW);
}

#[test]
fn second_response_is_not_found_and_first_stays() {
    let auth = service();
    let mut dir = Directory::new();
    register(&mut dir, &auth, "a@x.com", 1);
    register(&mut dir, &auth, "b@x.com", 2);
    dir.request_connection(Some(1), 2, 100, NOW).unwrap();
    let first = dir.respond(Some(2), 100, ConnectionStatus::Accepted, NOW + 3);
    assert_eq!(first, Ok(ConnectionStatus::Accepted));
    let second = dir.respond(Some(2), 100, ConnectionStatus::Rejected, NOW + 4);
    assert_eq!(second, Err(ApiError::NotFound));
    let c = dir.connection(100).unwrap();
    assert_eq!(c.status, ConnectionStatus::Accepted);
    assert_eq!(c.updated_at, NOW + 3);
    assert_eq!(c.created_at, NOW);
}

#[test]
fn pending_is_no_answer() {
    let auth = service();
    let mut dir = Directory::new();
    register(&mut dir, &auth, "a@x.com", 1);
    register(&mut dir, &auth, "b@x.com", 2);
    dir.request_connection(Some(1), 2, 100, NOW).unwrap();
    let r = dir.respond(Some(2), 100, ConnectionStatus::Pending, NOW + 1);
    assert_eq!(r, Err(ApiError::BadRequest));
    let rejected = dir.respond(Some(2), 100, ConnectionStatus::Rejected, NOW + 2);
    assert_eq!(rejected, Ok(ConnectionStatus::Rejected));
    assert_eq!(dir.connection(100).unwrap().status, ConnectionStatus::Rejected);
}

#[test]
fn listings_filter_and_put_latest_first() {
    let auth = service();
    let mut dir = Directory::new();
    for (i, email) in ["a@x.com", "b@x.com", "c@x.com", "d@x.com"].iter().enumerate() {
        register(&mut dir, &auth, email, i as u128 + 1);
    }
    dir.request_connection(Some(2), 1, 100, NOW).unwrap();
    dir.request_connection(Some(3), 1, 101, NOW + 1).unwrap();
    dir.request_connection(Some(1), 4, 102, NOW + 2).unwrap();
    dir.request_connection(Some(4), 3, 103, NOW + 3).unwrap();
    let pending: Vec<u128> = dir.pending_requests(Some(1)).unwrap().iter().map(|c| c.id).collect();
    assert_eq!(pending, vec![101, 100]);
    assert!(dir.connections_of(Some(1)).unwrap().is_empty());
    dir.respond(Some(1), 100, ConnectionStatus::Accepted, NOW + 4).unwrap();
    dir.respond(Some(4), 102, ConnectionStatus::Accepted, NOW + 5).unwrap();
    dir.respond(Some(1), 101, ConnectionStatus::Rejected, NOW + 6).unwrap();
    assert!(dir.pending_requests(Some(1)).unwrap().is_empty());
    let mine: Vec<u128> = dir.connections_of(Some(1)).unwrap().iter().map(|c| c.id).collect();
    assert_eq!(mine, vec![102, 100]);
    let others: Vec<u128> = dir.connections_of(Some(1)).unwrap().iter().map(|c| c.other_party(1)).collect();
    assert_eq!(others, vec![4, 2]);
    let for_three: Vec<u128> = dir.pending_requests(Some(3)).unwrap().iter().map(|c| c.id).collect();
    assert_eq!(for_three, vec![103]);
}

#[test]
fn listings_need_an_identity() {
    let dir = Directory::new();
    assert_eq!(dir.pending_requests(None).err(), Some(ApiError::Unauthorized));
    assert_eq!(dir.connections_of(None).err(), Some(ApiError::Unauthorized));
    assert!(dir.pending_requests(Some(1)).unwrap().is_empty());
}

#[test]
fn creation_times_never_go_back() {
    let auth = service();
    let mut dir = Directory::new();
    register(&mut dir, &auth, "a@x.com", 1);
    register(&mut dir, &auth, "b@x.com", 2);
    register(&mut dir, &auth, "c@x.com", 3);
    let first = dir.request_connection(Some(2), 1, 100, 5).unwrap();
    assert_eq!(first.created_at, 5);
    let second = dir.request_connection(Some(3), 1, 101, 3).unwrap();
    assert_eq!(second.created_at, 5);
    assert_eq!(second.updated_at, 5);
    let listed = dir.pending_requests(Some(1)).unwrap();
    assert_eq!(listed.len(), 2);
    assert!(listed[0].created_at >= listed[1].created_at);
    let third = dir.request_connection(Some(3), 2, 102, 9).unwrap();
    assert_eq!(third.created_at, 9);
}

#[test]
fn registered_token_resolves_through_bearer_header() {
    let auth = service();
    let mut dir = Directory::new();
    let created = register(&mut dir, &auth, "t@x.com", 77);
    assert!(!created.token.is_empty());
    let header = format!("Bearer {}", created.token);
    assert_eq!(auth.user_id_from_authorization_at(Some(&header), NOW + 100), Some(77));
}
