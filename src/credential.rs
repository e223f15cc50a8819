use vstd::prelude::*;
use vstd::string::StrSliceExecFns;
use vstd::utf8::encode_utf8;
use argon2::password_hash::rand_core::OsRng;
use argon2::password_hash::{PasswordHash, PasswordHasher, PasswordVerifier, SaltString};
use argon2::Argon2;
use jsonwebtoken::{DecodingKey, EncodingKey, Header, Validation};
use crate::error::TokenError;
use crate::model::Claims;

verus! {

/// Longest password, in UTF-8 bytes, that Argon2 accepts.
pub const MAX_PASSWORD_BYTES: usize = 0xFFFF_FFFF;

/// Lifetime of an issued token, in seconds.
pub const TOKEN_LIFETIME_SECS: u64 = 86400;

/// Slack granted to clocks when checking a token's expiration, in seconds.
pub const CLOCK_LEEWAY_SECS: u64 = 60;

#[verifier::external_type_specification]
#[verifier::external_body]
pub struct ExHashError(argon2::password_hash::Error);

#[verifier::external_type_specification]
#[verifier::external_body]
pub struct ExJwtError(jsonwebtoken::errors::Error);

/// A character of the standard Base64 alphabet.
pub open spec fn b64_char(c: char) -> bool {
    ('A' <= c <= 'Z') || ('a' <= c <= 'z') || ('0' <= c <= '9') || c == '+' || c == '/'
}

/// `s` is the unpadded Base64 ("B64") encoding of 16 bytes: 22 characters
/// of the alphabet, the last carrying 2 data bits and 4 zero bits.
pub open spec fn b64_of_16_bytes(s: Seq<char>) -> bool {
    &&& s.len() == 22
    &&& forall|i: int| 0 <= i < 22 ==> b64_char(#[trigger] s[i])
    &&& (s[21] == 'A' || s[21] == 'Q' || s[21] == 'g' || s[21] == 'w')
}

/// Whether Argon2 takes the password: its UTF-8 form is short enough.
pub open spec fn hashable(password: Seq<char>) -> bool {
    encode_utf8(password).len() <= MAX_PASSWORD_BYTES
}

/// The PHC string that Argon2 (default parameters) makes of a password and a B64 salt.
pub uninterp spec fn argon2_phc(password: Seq<char>, salt: Seq<char>) -> Seq<char>;

/// What Argon2 says of a password against a PHC string: `None` where the
/// string does not parse as a password hash.
pub uninterp spec fn phc_verdict(password: Seq<char>, phc: Seq<char>) -> Option<bool>;

/// The token that HS256 signing with `secret` makes of the claims.
pub uninterp spec fn jwt_of(sub: u128, email: Seq<char>, exp: u64, secret: Seq<char>) -> Seq<char>;

/// The claims (subject, email, expiration) that a token carries under a
/// correct `secret` signature, expiration not yet checked; `None` for a bad
/// signature or a malformed token.
pub uninterp spec fn jwt_claims(token: Seq<char>, secret: Seq<char>) -> Option<(u128, Seq<char>, u64)>;

/// Relies on `SaltString::generate` with the operating system's generator:
/// the B64 encoding of 16 random bytes.
#[verifier::external_body]
fn random_salt() -> (r: String)
    ensures
        b64_of_16_bytes(r@),
{
    SaltString::generate(&mut OsRng).as_str().to_string()
}

/// Relies on `SaltString::from_b64` and `Argon2::hash_password` (default
/// parameters): the PHC string depends on the password and salt alone, and
/// `verify_password` accepts the same password against it. It succeeds for
/// a salt that encodes 16 bytes (within the 4 to 64 characters of the PHC
/// salt alphabet that `from_b64` takes, and at least the 8 decoded bytes
/// that Argon2 asks) and a password of at most `MAX_PASSWORD_BYTES` bytes.
/// The PHC string writes the salt field as given, so another salt gives
/// another string; and it always parses, so checking any password against
/// it gives a verdict, not an error.
#[verifier::external_body]
fn argon2_hash(password: &str, salt: &str) -> (r: Result<String, argon2::password_hash::Error>)
    ensures
        b64_of_16_bytes(salt@) && hashable(password@) ==> r is Ok,
        r matches Ok(h) ==> forall|other: Seq<char>|
            b64_of_16_bytes(other) && #[trigger] argon2_phc(password@, other) == h@ ==> other
                == salt@,
        r matches Ok(h) ==> forall|any: Seq<char>| #[trigger] phc_verdict(any, h@) is Some,
        r matches Ok(h) ==> h@ == argon2_phc(password@, salt@) && phc_verdict(password@, h@)
            == Some(true),
{
    let salt = SaltString::from_b64(salt)?;
    Ok(Argon2::default().hash_password(password.as_bytes(), &salt)?.to_string())
}

/// Relies on `PasswordHash::new` (parsing the PHC string; its error is
/// returned) and `Argon2::verify_password` (any failure there is a `false`).
#[verifier::external_body]
fn argon2_verify(password: &str, phc: &str) -> (r: Result<bool, argon2::password_hash::Error>)
    ensures
        match r {
            Ok(b) => phc_verdict(password@, phc@) == Some(b),
            Err(_) => phc_verdict(password@, phc@) is None,
        },
{
    let parsed = PasswordHash::new(phc)?;
    Ok(Argon2::default().verify_password(password.as_bytes(), &parsed).is_ok())
}

/// Relies on `jsonwebtoken::encode` with the default header (HS256) and an
/// HMAC key: the key family always matches and a JSON object always
/// serialises, so it succeeds; the token joins three parts with '.', so it
/// is never empty; `jsonwebtoken::decode` with the same secret
/// reads the same claims back.
#[verifier::external_body]
fn jwt_encode(sub: u128, email: &str, exp: u64, secret: &str) -> (r: Result<String, jsonwebtoken::errors::Error>)
    ensures
        r is Ok,
        r matches Ok(t) ==> t@.len() > 0,
        r matches Ok(t) ==> t@ == jwt_of(sub, email@, exp, secret@) && jwt_claims(t@, secret@)
            == Some((sub, email@, exp)),
{
    let mut claims = serde_json::Map::new();
    claims.insert("sub".to_string(), uuid::Uuid::from_u128(sub).to_string().into());
    claims.insert("email".to_string(), email.into());
    claims.insert("exp".to_string(), exp.into());
    let key = EncodingKey::from_secret(secret.as_bytes());
    jsonwebtoken::encode(&Header::default(), &serde_json::Value::Object(claims), &key)
}

/// Relies on `jsonwebtoken::decode` (HS256, expiration left to the caller)
/// and `Uuid::parse_str` for the subject: `None` for a bad signature, a
/// malformed token or claims of another shape.
#[verifier::external_body]
fn jwt_decode(token: &str, secret: &str) -> (r: Option<(u128, String, u64)>)
    ensures
        match r {
            Some(c) => jwt_claims(token@, secret@) == Some((c.0, c.1@, c.2)),
            None => jwt_claims(token@, secret@) is None,
        },
{
    let mut validation = Validation::default();
    validation.validate_exp = false;
    let key = DecodingKey::from_secret(secret.as_bytes());
    let data = jsonwebtoken::decode::<serde_json::Value>(token, &key, &validation).ok()?;
    let sub = uuid::Uuid::parse_str(data.claims["sub"].as_str()?).ok()?;
    Some((sub.as_u128(), data.claims["email"].as_str()?.to_string(), data.claims["exp"].as_u64()?))
}

/// Relies on `SystemTime::now` and `SystemTime::duration_since(UNIX_EPOCH)`:
/// whole seconds since the Unix epoch, `None` for a clock set before it.
#[verifier::external_body]
fn clock_seconds() -> (r: Option<u64>) {
    std::time::SystemTime::now().duration_since(std::time::UNIX_EPOCH).ok().map(|d| d.as_secs())
}

/// The current time in whole seconds since the Unix epoch; a clock set
/// before the epoch reads as zero, one beyond `i64::MAX` seconds as that.
pub fn now_secs() -> (r: u64)
    ensures
        r <= i64::MAX,
{
    match clock_seconds() {
        None => 0,
        Some(t) => if t > i64::MAX as u64 {
            i64::MAX as u64
        } else {
            t
        },
    }
}

pub open spec fn token_expired(exp: u64, now: u64) -> bool {
    exp + CLOCK_LEEWAY_SECS < now
}

/// What validating `token` at time `now` yields: the claims, or why not.
pub open spec fn validation_outcome(token: Seq<char>, secret: Seq<char>, now: u64) -> Result<
    (u128, Seq<char>, u64),
    TokenError,
> {
    match jwt_claims(token, secret) {
        None => Err(TokenError::Invalid),
        Some(c) => if token_expired(c.2, now) {
            Err(TokenError::Expired)
        } else {
            Ok(c)
        },
    }
}

pub open spec fn bearer_prefix() -> Seq<char> {
    seq!['B', 'e', 'a', 'r', 'e', 'r', ' ']
}

/// The token of an authorization header: what follows "Bearer ", else empty.
pub open spec fn bearer_token_of(header: Seq<char>) -> Seq<char> {
    if header.len() >= 7 && header.subrange(0, 7) == bearer_prefix() {
        header.subrange(7, header.len() as int)
    } else {
        Seq::empty()
    }
}

/// The identity an authorization header resolves to at time `now`; no
/// header, an empty token and a token that does not validate all give `None`.
pub open spec fn resolved_identity(header: Option<Seq<char>>, secret: Seq<char>, now: u64) -> Option<
    u128,
> {
    match header {
        None => None,
        Some(h) => {
            let t = bearer_token_of(h);
            if t.len() == 0 {
                None
            } else {
                match validation_outcome(t, secret, now) {
                    Ok(c) => Some(c.0),
                    Err(_) => None,
                }
            }
        },
    }
}

pub open spec fn header_view(header: Option<&str>) -> Option<Seq<char>> {
    match header {
        Some(h) => Some(h@),
        None => None,
    }
}

/// The token of an authorization header value: what follows "Bearer ", else empty.
pub fn bearer_token(header: &str) -> (r: &str)
    ensures
        r@ == bearer_token_of(header@),
{
    let n = header.unicode_len();
    if n >= 7 && header.get_char(0) == 'B' && header.get_char(1) == 'e' && header.get_char(2)
        == 'a' && header.get_char(3) == 'r' && header.get_char(4) == 'e' && header.get_char(5)
        == 'r' && header.get_char(6) == ' ' {
        assert(header@.subrange(0, 7) =~= bearer_prefix());
        header.substring_char(7, n)
    } else {
        assert(n >= 7 ==> forall|k: int| 0 <= k < 7 ==> #[trigger] header@.subrange(0, 7)[k] == header@[k]);
        let r = header.substring_char(0, 0);
        assert(r@ =~= Seq::<char>::empty());
        r
    }
}

/// A token carrying (user, email, expiration) under `secret`, as
/// `issue_token_at` signs one, validates to those claims at any time up to
/// its expiration plus the clock leeway.
pub proof fn lemma_issued_token_validates(
    token: Seq<char>,
    secret: Seq<char>,
    user: u128,
    email: Seq<char>,
    issued_at: u64,
    now: u64,
)
    requires
        issued_at <= u64::MAX - TOKEN_LIFETIME_SECS,
        jwt_claims(token, secret) == Some((user, email, (issued_at + TOKEN_LIFETIME_SECS) as u64)),
        now <= issued_at + TOKEN_LIFETIME_SECS + CLOCK_LEEWAY_SECS,
    ensures
        validation_outcome(token, secret, now) == Ok::<(u128, Seq<char>, u64), TokenError>(
            (user, email, (issued_at + TOKEN_LIFETIME_SECS) as u64),
        ),
{
}

/// The token of a header is what follows "Bearer ".
pub proof fn lemma_bearer_round_trip(token: Seq<char>)
    ensures
        bearer_token_of(bearer_prefix() + token) == token,
{
    let h = bearer_prefix() + token;
    assert(h.subrange(0, 7) =~= bearer_prefix());
    assert(h.subrange(7, h.len() as int) =~= token);
}

/// A non-empty token carrying (user, email, expiration) under `secret`, as
/// `issue_token_at` signs one, sent as "Bearer <token>", resolves to that
/// user at any time up to its expiration plus the clock leeway.
pub proof fn lemma_issued_token_resolves(
    token: Seq<char>,
    secret: Seq<char>,
    user: u128,
    email: Seq<char>,
    issued_at: u64,
    now: u64,
)
    requires
        token.len() > 0,
        issued_at <= u64::MAX - TOKEN_LIFETIME_SECS,
        jwt_claims(token, secret) == Some((user, email, (issued_at + TOKEN_LIFETIME_SECS) as u64)),
        now <= issued_at + TOKEN_LIFETIME_SECS + CLOCK_LEEWAY_SECS,
    ensures
        resolved_identity(Some(bearer_prefix() + token), secret, now) == Some(user),
{
    lemma_bearer_round_trip(token);
    lemma_issued_token_validates(token, secret, user, email, issued_at, now);
}

/// Password hashing and token signing under one process-wide signing secret.
pub struct AuthService {
    jwt_secret: String,
}

impl AuthService {
    /// The secret that tokens are signed with.
    pub closed spec fn secret(&self) -> Seq<char> {
        self.jwt_secret@
    }

    pub fn new(jwt_secret: String) -> (r: AuthService)
        ensures
            r.secret() == jwt_secret@,
    {
        AuthService { jwt_secret }
    }

    /// Hashes a password under the given B64 salt into Argon2's PHC string
    /// (algorithm, default parameters, salt, digest).
    pub fn hash_password_with_salt(&self, password: &str, salt: &str) -> (r: Result<
        String,
        argon2::password_hash::Error,
    >)
        ensures
            b64_of_16_bytes(salt@) && hashable(password@) ==> r is Ok,
            r matches Ok(h) ==> h@ == argon2_phc(password@, salt@) && phc_verdict(password@, h@)
                == Some(true),
            r matches Ok(h) ==> forall|other: Seq<char>|
                b64_of_16_bytes(other) && #[trigger] argon2_phc(password@, other) == h@ ==> other
                    == salt@,
            r matches Ok(h) ==> forall|any: Seq<char>| #[trigger] phc_verdict(any, h@) is Some,
    {
        argon2_hash(password, salt)
    }

    /// Hashes a password under a fresh random 16-byte salt into a PHC string
    /// that `verify_password` accepts for the same password. It fails only
    /// for a password longer than `MAX_PASSWORD_BYTES`.
    pub fn hash_password(&self, password: &str) -> (r: Result<String, argon2::password_hash::Error>)
        ensures
            hashable(password@) ==> r is Ok,
            r matches Ok(h) ==> exists|salt: Seq<char>|
                b64_of_16_bytes(salt) && h@ == #[trigger] argon2_phc(password@, salt),
            r matches Ok(h) ==> phc_verdict(password@, h@) == Some(true),
            r matches Ok(h) ==> forall|any: Seq<char>| #[trigger] phc_verdict(any, h@) is Some,
    {
        let salt = random_salt();
        let r = self.hash_password_with_salt(password, salt.as_str());
        assert(r matches Ok(h) ==> h@ == argon2_phc(password@, salt@));
        r
    }

    /// Checks a password against a stored PHC string: `Ok(false)` on any
    /// mismatch, an error only where the string is malformed.
    pub fn verify_password(&self, password: &str, password_hash: &str) -> (r: Result<
        bool,
        argon2::password_hash::Error,
    >)
        ensures
            match r {
                Ok(b) => phc_verdict(password@, password_hash@) == Some(b),
                Err(_) => phc_verdict(password@, password_hash@) is None,
            },
    {
        argon2_verify(password, password_hash)
    }

    /// Signs a token for `user_id` and `email` issued at `now`, expiring a day later.
    pub fn issue_token_at(&self, user_id: u128, email: &str, now: u64) -> (r: Result<
        String,
        jsonwebtoken::errors::Error,
    >)
        requires
            now <= u64::MAX - TOKEN_LIFETIME_SECS,
        ensures
            r is Ok,
            r matches Ok(t) ==> t@ == jwt_of(user_id, email@, (now + TOKEN_LIFETIME_SECS) as u64, self.secret())
                && jwt_claims(t@, self.secret()) == Some((user_id, email@, (now + TOKEN_LIFETIME_SECS) as u64)),
            r matches Ok(t) ==> t@.len() > 0,
            r matches Ok(t) ==> forall|later: u64|
                #![trigger resolved_identity(Some(bearer_prefix() + t@), self.secret(), later)]
                later <= now + TOKEN_LIFETIME_SECS + CLOCK_LEEWAY_SECS ==> resolved_identity(
                    Some(bearer_prefix() + t@),
                    self.secret(),
                    later,
                ) == Some(user_id),
            r matches Ok(t) ==> forall|later: u64|
                #![trigger validation_outcome(t@, self.secret(), later)]
                later <= now + TOKEN_LIFETIME_SECS + CLOCK_LEEWAY_SECS ==> validation_outcome(
                    t@,
                    self.secret(),
                    later,
                ) == Ok::<(u128, Seq<char>, u64), TokenError>(
                    (user_id, email@, (now + TOKEN_LIFETIME_SECS) as u64),
                ),
    {
        let exp = now + TOKEN_LIFETIME_SECS;
        let r = jwt_encode(user_id, email, exp, self.jwt_secret.as_str());
        proof {
            if let Ok(t) = &r {
                assert forall|later: u64|
                    later <= now + TOKEN_LIFETIME_SECS + CLOCK_LEEWAY_SECS implies resolved_identity(
                    Some(bearer_prefix() + t@),
                    self.secret(),
                    later,
                ) == Some(user_id) by {
                    lemma_issued_token_resolves(t@, self.secret(), user_id, email@, now, later);
                }
            }
        }
        r
    }

    /// Signs a token for `user_id` and `email`, expiring a day from now.
    pub fn generate_token(&self, user_id: u128, email: &str) -> (r: Result<
        String,
        jsonwebtoken::errors::Error,
    >)
        ensures
            r is Ok,
            r matches Ok(t) ==> t@.len() > 0,
            r matches Ok(t) ==> exists|now: u64|
                now <= i64::MAX && t@ == #[trigger] jwt_of(
                    user_id,
                    email@,
                    (now + TOKEN_LIFETIME_SECS) as u64,
                    self.secret(),
                ) && jwt_claims(t@, self.secret()) == Some(
                    (user_id, email@, (now + TOKEN_LIFETIME_SECS) as u64),
                ),
    {
        let now = now_secs();
        let r = self.issue_token_at(user_id, email, now);
        assert(r matches Ok(t) ==> jwt_claims(t@, self.secret()) == Some(
            (user_id, email@, (now + TOKEN_LIFETIME_SECS) as u64),
        ));
        r
    }

    /// Checks a token's signature and, at time `now`, its expiration.
    pub fn validate_token_at(&self, token: &str, now: u64) -> (r: Result<Claims, TokenError>)
        ensures
            match r {
                Ok(c) => validation_outcome(token@, self.secret(), now) == Ok::<
                    (u128, Seq<char>, u64),
                    TokenError,
                >((c.sub, c.email@, c.exp)),
                Err(e) => validation_outcome(token@, self.secret(), now) == Err::<
                    (u128, Seq<char>, u64),
                    TokenError,
                >(e),
            },
    {
        match jwt_decode(token, self.jwt_secret.as_str()) {
            None => Err(TokenError::Invalid),
            Some((sub, email, exp)) => {
                if exp as u128 + (CLOCK_LEEWAY_SECS as u128) < now as u128 {
                    Err(TokenError::Expired)
                } else {
                    Ok(Claims { sub, email, exp })
                }
            },
        }
    }

    /// Checks a token's signature and its expiration against the clock.
    pub fn validate_token(&self, token: &str) -> (r: Result<Claims, TokenError>)
        ensures
            exists|now: u64| #[trigger]
                validation_outcome(token@, self.secret(), now) == match r {
                    Ok(c) => Ok::<(u128, Seq<char>, u64), TokenError>((c.sub, c.email@, c.exp)),
                    Err(e) => Err::<(u128, Seq<char>, u64), TokenError>(e),
                },
    {
        let now = now_secs();
        let r = self.validate_token_at(token, now);
        assert(validation_outcome(token@, self.secret(), now) == match r {
            Ok(c) => Ok::<(u128, Seq<char>, u64), TokenError>((c.sub, c.email@, c.exp)),
            Err(e) => Err::<(u128, Seq<char>, u64), TokenError>(e),
        });
        r
    }

    /// The user an authorization header value identifies at time `now`, if any.
    pub fn user_id_from_authorization_at(&self, header: Option<&str>, now: u64) -> (r: Option<u128>)
        ensures
            r == resolved_identity(header_view(header), self.secret(), now),
    {
        match header {
            None => None,
            Some(h) => {
                let token = bearer_token(h);
                if token.unicode_len() == 0 {
                    None
                } else {
                    match self.validate_token_at(token, now) {
                        Ok(c) => Some(c.sub),
                        Err(_) => None,
                    }
                }
            },
        }
    }

    /// The user an authorization header value identifies now, if any; never an error.
    pub fn user_id_from_authorization(&self, header: Option<&str>) -> (r: Option<u128>)
        ensures
            exists|now: u64| r == resolved_identity(header_view(header), self.secret(), now),
    {
        let now = now_secs();
        let r = self.user_id_from_authorization_at(header, now);
        assert(r == resolved_identity(header_view(header), self.secret(), now));
        r
    }
}

} // verus!
