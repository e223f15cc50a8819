use vstd::prelude::*;

verus! {

/// Lifecycle state of a connection. `Accepted` and `Rejected` are terminal.
#[derive(Debug, Clone, Copy, PartialEq, Eq, Structural)]
pub enum ConnectionStatus {
    Pending,
    Accepted,
    Rejected,
}

pub open spec fn status_text(s: ConnectionStatus) -> Seq<char> {
    match s {
        ConnectionStatus::Pending => seq!['p', 'e', 'n', 'd', 'i', 'n', 'g'],
        ConnectionStatus::Accepted => seq!['a', 'c', 'c', 'e', 'p', 't', 'e', 'd'],
        ConnectionStatus::Rejected => seq!['r', 'e', 'j', 'e', 'c', 't', 'e', 'd'],
    }
}

impl ConnectionStatus {
    /// The lower-case name under which the status is stored and shown.
    pub fn as_text(&self) -> (r: String)
        ensures
            r@ == status_text(*self),
    {
        match self {
            ConnectionStatus::Pending => {
                proof {
                    reveal_strlit("pending");
                }
                "pending".to_owned()
            },
            ConnectionStatus::Accepted => {
                proof {
                    reveal_strlit("accepted");
                }
                "accepted".to_owned()
            },
            ConnectionStatus::Rejected => {
                proof {
                    reveal_strlit("rejected");
                }
                "rejected".to_owned()
            },
        }
    }

    /// Whether the status is one a receiver may move a pending connection to.
    pub fn is_response(&self) -> (r: bool)
        ensures
            r == (*self != ConnectionStatus::Pending),
    {
        !matches!(self, ConnectionStatus::Pending)
    }
}

/// A user account. `id` never changes once created; `email` is unique in a store.
pub struct User {
    pub id: u128,
    pub email: String,
    pub full_name: String,
    pub profile_picture_url: Option<String>,
    pub email_verified: bool,
    pub verification_tier: String,
    pub created_at: u64,
    pub updated_at: u64,
}

impl User {
    /// A field-for-field copy.
    pub fn copied(&self) -> (r: User)
        ensures
            r == *self,
    {
        let picture = match &self.profile_picture_url {
            Some(p) => Some(p.clone()),
            None => None,
        };
        User {
            id: self.id,
            email: self.email.clone(),
            full_name: self.full_name.clone(),
            profile_picture_url: picture,
            email_verified: self.email_verified,
            verification_tier: self.verification_tier.clone(),
            created_at: self.created_at,
            updated_at: self.updated_at,
        }
    }
}

/// The password credential of a user: one per user, never handed out.
pub struct Credential {
    pub user_id: u128,
    pub provider: String,
    pub provider_user_id: String,
    pub password_hash: String,
}

/// A directed relationship request between two users.
#[derive(Debug, Clone, Copy, PartialEq, Eq, Structural)]
pub struct Connection {
    pub id: u128,
    pub sender_id: u128,
    pub receiver_id: u128,
    pub status: ConnectionStatus,
    pub created_at: u64,
    pub updated_at: u64,
}

pub open spec fn other_party_of(c: Connection, user: u128) -> u128 {
    if c.sender_id == user {
        c.receiver_id
    } else {
        c.sender_id
    }
}

impl Connection {
    /// The user on the other end of the connection, seen from `user`.
    pub fn other_party(&self, user: u128) -> (r: u128)
        ensures
            r == other_party_of(*self, user),
    {
        if self.sender_id == user {
            self.receiver_id
        } else {
            self.sender_id
        }
    }
}

/// The decoded payload of a token: subject user id, email, expiration (seconds).
#[derive(Debug, PartialEq, Eq)]
pub struct Claims {
    pub sub: u128,
    pub email: String,
    pub exp: u64,
}

/// A created or logged-in user together with a fresh token.
pub struct AuthResponse {
    pub token: String,
    pub user: User,
}

/// Input of account registration.
pub struct CreateUserRequest {
    pub email: String,
    pub full_name: String,
    pub password: String,
}

/// Input of login.
pub struct LoginRequest {
    pub email: String,
    pub password: String,
}

/// Input of a connection request: whom to connect to.
#[derive(Debug, Clone, Copy, PartialEq, Eq, Structural)]
pub struct ConnectionRequest {
    pub receiver_id: u128,
}

/// Input of a response to a connection request.
#[derive(Debug, Clone, Copy, PartialEq, Eq, Structural)]
pub struct UpdateConnectionRequest {
    pub status: ConnectionStatus,
}

/// Profile details of a user.
pub struct UserProfile {
    pub id: i32,
    pub user_id: i32,
    pub headline: Option<String>,
    pub summary: Option<String>,
    pub location: Option<String>,
    pub website: Option<String>,
    pub created_at: u64,
    pub updated_at: u64,
}

/// Input of a profile update; absent fields are left alone.
pub struct UpdateProfileRequest {
    pub headline: Option<String>,
    pub summary: Option<String>,
    pub location: Option<String>,
    pub website: Option<String>,
}

/// Input of a user search.
pub struct SearchQuery {
    pub q: Option<String>,
}

} // verus!
