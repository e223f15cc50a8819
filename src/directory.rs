use vstd::prelude::*;
use crate::credential::{
    hashable, jwt_claims, phc_verdict, AuthService, MAX_PASSWORD_BYTES, TOKEN_LIFETIME_SECS,
};
use crate::error::ApiError;
use crate::model::{
    AuthResponse, Connection, ConnectionStatus, CreateUserRequest, Credential, LoginRequest, User,
};
use crate::validation::{login_valid, registration_valid, validate_login, validate_registration};

verus! {

pub open spec fn email_taken(users: Seq<User>, email: Seq<char>) -> bool {
    exists|i: int| 0 <= i < users.len() && (#[trigger] users[i]).email@ == email
}

pub open spec fn user_id_taken(users: Seq<User>, id: u128) -> bool {
    exists|i: int| 0 <= i < users.len() && (#[trigger] users[i]).id == id
}

pub open spec fn has_credential(creds: Seq<Credential>, user_id: u128) -> bool {
    exists|k: int| 0 <= k < creds.len() && (#[trigger] creds[k]).user_id == user_id
}

pub open spec fn connection_id_taken(conns: Seq<Connection>, id: u128) -> bool {
    exists|i: int| 0 <= i < conns.len() && (#[trigger] conns[i]).id == id
}

/// A connection from `sender` to `receiver` exists, whatever its status.
pub open spec fn pair_taken(conns: Seq<Connection>, sender: u128, receiver: u128) -> bool {
    exists|i: int|
        0 <= i < conns.len() && (#[trigger] conns[i]).sender_id == sender && conns[i].receiver_id
            == receiver
}

/// The connection at `i` has id `id`, is addressed to `user` and is still pending.
pub open spec fn answerable_at(conns: Seq<Connection>, i: int, id: u128, user: u128) -> bool {
    &&& 0 <= i < conns.len()
    &&& conns[i].id == id
    &&& conns[i].receiver_id == user
    &&& conns[i].status == ConnectionStatus::Pending
}

pub open spec fn answerable(conns: Seq<Connection>, id: u128, user: u128) -> bool {
    exists|i: int| #[trigger] answerable_at(conns, i, id, user)
}

pub open spec fn users_wf(users: Seq<User>) -> bool {
    forall|i: int, j: int|
        0 <= i < users.len() && 0 <= j < users.len() && i != j ==> (#[trigger] users[i]).id
            != (#[trigger] users[j]).id && users[i].email@ != users[j].email@
}

pub open spec fn credentials_wf(users: Seq<User>, creds: Seq<Credential>) -> bool {
    &&& forall|k: int| 0 <= k < creds.len() ==> user_id_taken(users, (#[trigger] creds[k]).user_id)
    &&& forall|k: int, l: int|
        0 <= k < creds.len() && 0 <= l < creds.len() && k != l ==> (#[trigger] creds[k]).user_id
            != (#[trigger] creds[l]).user_id
}

pub open spec fn connections_wf(conns: Seq<Connection>) -> bool {
    &&& forall|a: int| 0 <= a < conns.len() ==> (#[trigger] conns[a]).sender_id != conns[a].receiver_id
    &&& forall|a: int, b: int|
        0 <= a < conns.len() && 0 <= b < conns.len() && a != b ==> (#[trigger] conns[a]).id
            != (#[trigger] conns[b]).id && (conns[a].sender_id != conns[b].sender_id
            || conns[a].receiver_id != conns[b].receiver_id)
    &&& forall|a: int, b: int|
        0 <= a < b < conns.len() ==> (#[trigger] conns[a]).created_at <= (#[trigger] conns[b]).created_at
}

pub open spec fn email_provider() -> Seq<char> {
    seq!['e', 'm', 'a', 'i', 'l']
}

pub open spec fn standard_tier() -> Seq<char> {
    seq!['s', 't', 'a', 'n', 'd', 'a', 'r', 'd']
}

/// `u` is the record of an account created with these values.
pub open spec fn new_account_user(u: User, id: u128, email: Seq<char>, full_name: Seq<char>, now: u64) -> bool {
    &&& u.id == id
    &&& u.email@ == email
    &&& u.full_name@ == full_name
    &&& u.profile_picture_url is None
    &&& !u.email_verified
    &&& u.verification_tier@ == standard_tier()
    &&& u.created_at == now
    &&& u.updated_at == now
}

/// `c` is the password credential of user `user_id`, holding `hash`.
pub open spec fn password_credential(c: Credential, user_id: u128, email: Seq<char>, hash: Seq<char>) -> bool {
    &&& c.user_id == user_id
    &&& c.provider@ == email_provider()
    &&& c.provider_user_id@ == email
    &&& c.password_hash@ == hash
}

/// What a registration meets before any hashing or writing.
pub open spec fn registration_gate(
    users: Seq<User>,
    email: Seq<char>,
    full_name: Seq<char>,
    password: Seq<char>,
    user_id: u128,
) -> Result<(), ApiError> {
    if !registration_valid(email, full_name, password) {
        Err(ApiError::Validation)
    } else if email_taken(users, email) {
        Err(ApiError::Conflict)
    } else if user_id_taken(users, user_id) {
        Err(ApiError::Internal)
    } else if !hashable(password) {
        Err(ApiError::Internal)
    } else {
        Ok(())
    }
}

/// The creation time a connection stored at `now` gets: `now`, or the
/// latest stored creation time where the clock reads earlier, so that
/// creation times never decrease along the store.
pub open spec fn creation_stamp(conns: Seq<Connection>, now: u64) -> u64 {
    if conns.len() > 0 && now < conns.last().created_at {
        conns.last().created_at
    } else {
        now
    }
}

/// Creation times never increase along `s`.
pub open spec fn newest_created_first(s: Seq<Connection>) -> bool {
    forall|i: int, j: int| 0 <= i < j < s.len() ==> (#[trigger] s[i]).created_at >= (#[trigger] s[j]).created_at
}

/// What a connection request meets: `Ok` where it is stored.
pub open spec fn request_gate(
    users: Seq<User>,
    conns: Seq<Connection>,
    sender: Option<u128>,
    receiver: u128,
    id: u128,
) -> Result<(), ApiError> {
    match sender {
        None => Err(ApiError::Unauthorized),
        Some(s) => if s == receiver {
            Err(ApiError::BadRequest)
        } else if !user_id_taken(users, receiver) {
            Err(ApiError::NotFound)
        } else if pair_taken(conns, s, receiver) {
            Err(ApiError::Conflict)
        } else if connection_id_taken(conns, id) {
            Err(ApiError::Internal)
        } else {
            Ok(())
        },
    }
}

/// What a response to a connection request meets: `Ok` where it is applied.
pub open spec fn respond_gate(
    conns: Seq<Connection>,
    caller: Option<u128>,
    id: u128,
    status: ConnectionStatus,
) -> Result<(), ApiError> {
    match caller {
        None => Err(ApiError::Unauthorized),
        Some(u) => if status == ConnectionStatus::Pending {
            Err(ApiError::BadRequest)
        } else if !answerable(conns, id, u) {
            Err(ApiError::NotFound)
        } else {
            Ok(())
        },
    }
}

/// The connection `c` after its receiver answered `status` at `now`.
pub open spec fn responded(c: Connection, status: ConnectionStatus, now: u64) -> Connection {
    Connection {
        id: c.id,
        sender_id: c.sender_id,
        receiver_id: c.receiver_id,
        status,
        created_at: c.created_at,
        updated_at: now,
    }
}

pub open spec fn listed(c: Connection, user: u128, pending: bool) -> bool {
    if pending {
        c.receiver_id == user && c.status == ConnectionStatus::Pending
    } else {
        (c.sender_id == user || c.receiver_id == user) && c.status == ConnectionStatus::Accepted
    }
}

/// The connections of `s` that are listed for `user`, latest stored first;
/// in a well-formed store that is by creation time, newest first.
pub open spec fn newest_first(s: Seq<Connection>, user: u128, pending: bool) -> Seq<Connection>
    decreases s.len(),
{
    if s.len() == 0 {
        Seq::empty()
    } else {
        let rest = newest_first(s.subrange(1, s.len() as int), user, pending);
        if listed(s[0], user, pending) {
            rest.push(s[0])
        } else {
            rest
        }
    }
}

/// What a login yields: the index of the user it succeeds for, or the error.
pub open spec fn login_gate(
    users: Seq<User>,
    creds: Seq<Credential>,
    email: Seq<char>,
    password: Seq<char>,
) -> Result<int, ApiError> {
    if !login_valid(email, password) {
        Err(ApiError::Validation)
    } else if !email_taken(users, email) {
        Err(ApiError::Unauthorized)
    } else {
        let i = choose|i: int| 0 <= i < users.len() && (#[trigger] users[i]).email@ == email;
        if !has_credential(creds, users[i].id) {
            Err(ApiError::Unauthorized)
        } else {
            let k = choose|k: int| 0 <= k < creds.len() && (#[trigger] creds[k]).user_id == users[i].id;
            match phc_verdict(password, creds[k].password_hash@) {
                None => Err(ApiError::Internal),
                Some(false) => Err(ApiError::Unauthorized),
                Some(true) => Ok(i),
            }
        }
    }
}

/// Users, their password credentials and the connections between them.
pub struct Directory {
    users: Vec<User>,
    credentials: Vec<Credential>,
    connections: Vec<Connection>,
}

/// `new` is `old` with one account added: user `u` and its credential holding `hash`.
pub open spec fn account_added(old: Directory, new: Directory, u: User, hash: Seq<char>) -> bool {
    &&& new.users() == old.users().push(u)
    &&& new.credentials().len() == old.credentials().len() + 1
    &&& new.credentials().subrange(0, old.credentials().len() as int) == old.credentials()
    &&& password_credential(new.credentials().last(), u.id, u.email@, hash)
    &&& new.connections() == old.connections()
}

impl Directory {
    pub closed spec fn users(&self) -> Seq<User> {
        self.users@
    }

    pub closed spec fn credentials(&self) -> Seq<Credential> {
        self.credentials@
    }

    pub closed spec fn connections(&self) -> Seq<Connection> {
        self.connections@
    }

    pub open spec fn wf(&self) -> bool {
        &&& users_wf(self.users())
        &&& credentials_wf(self.users(), self.credentials())
        &&& connections_wf(self.connections())
    }

    pub open spec fn same_as(&self, other: Directory) -> bool {
        &&& self.users() == other.users()
        &&& self.credentials() == other.credentials()
        &&& self.connections() == other.connections()
    }

    /// An empty store.
    pub fn new() -> (r: Directory)
        ensures
            r.wf(),
            r.users().len() == 0,
            r.credentials().len() == 0,
            r.connections().len() == 0,
    {
        Directory { users: Vec::new(), credentials: Vec::new(), connections: Vec::new() }
    }

    /// Inserts a user and its password credential together, or neither: a
    /// taken email is a `Conflict`, a taken id an `Internal` failure.
    pub fn insert_account(
        &mut self,
        user_id: u128,
        email: &String,
        full_name: &String,
        password_hash: String,
        now: u64,
    ) -> (r: Result<User, ApiError>)
        requires
            old(self).wf(),
        ensures
            final(self).wf(),
            email_taken(old(self).users(), email@) ==> r == Err::<User, ApiError>(
                ApiError::Conflict,
            ),
            !email_taken(old(self).users(), email@) && user_id_taken(old(self).users(), user_id)
                ==> r == Err::<User, ApiError>(ApiError::Internal),
            r is Err ==> final(self).same_as(*old(self)),
            !email_taken(old(self).users(), email@) && !user_id_taken(old(self).users(), user_id)
                ==> r is Ok,
            r matches Ok(u) ==> new_account_user(u, user_id, email@, full_name@, now)
                && account_added(*old(self), *final(self), u, password_hash@),
    {
        if self.find_email(email).is_some() {
            return Err(ApiError::Conflict);
        }
        if self.find_user(user_id).is_some() {
            return Err(ApiError::Internal);
        }
        let tier = "standard".to_owned();
        let provider = "email".to_owned();
        proof {
            reveal_strlit("standard");
            reveal_strlit("email");
        }
        let user = User {
            id: user_id,
            email: email.clone(),
            full_name: full_name.clone(),
            profile_picture_url: None,
            email_verified: false,
            verification_tier: tier,
            created_at: now,
            updated_at: now,
        };
        let credential = Credential {
            user_id,
            provider,
            provider_user_id: email.clone(),
            password_hash,
        };
        let ghost old_users = self.users@;
        let ghost old_creds = self.credentials@;
        let result = user.copied();
        self.users.push(user);
        self.credentials.push(credential);
        proof {
            assert(self.credentials@.subrange(0, old_creds.len() as int) =~= old_creds);
            assert(self.users@ =~= old_users.push(result));
            assert(self.credentials@.last().provider@ == email_provider());
            assert(self.credentials@.last().provider_user_id@ == email@);
            assert(result.verification_tier@ == standard_tier());
            assert forall|k: int| 0 <= k < self.credentials@.len() implies user_id_taken(
                self.users@,
                (#[trigger] self.credentials@[k]).user_id,
            ) by {
                if k < old_creds.len() {
                    let i = choose|i: int|
                        0 <= i < old_users.len() && (#[trigger] old_users[i]).id
                            == old_creds[k].user_id;
                    assert(self.users@[i] == old_users[i]);
                } else {
                    assert(self.users@[old_users.len() as int].id == user_id);
                }
            }
            assert forall|k: int, l: int|
                0 <= k < self.credentials@.len() && 0 <= l < self.credentials@.len() && k != l
                    implies (#[trigger] self.credentials@[k]).user_id
                != (#[trigger] self.credentials@[l]).user_id by {
                if k == old_creds.len() {
                    assert(user_id_taken(old_users, old_creds[l].user_id));
                } else if l == old_creds.len() {
                    assert(user_id_taken(old_users, old_creds[k].user_id));
                } else {
                    assert(self.credentials@[k] == old_creds[k]);
                    assert(self.credentials@[l] == old_creds[l]);
                }
            }
            assert forall|i: int, j: int|
                0 <= i < self.users@.len() && 0 <= j < self.users@.len() && i != j implies (
                #[trigger] self.users@[i]).id != (#[trigger] self.users@[j]).id
                && self.users@[i].email@ != self.users@[j].email@ by {
                if i == old_users.len() {
                    assert(self.users@[j] == old_users[j]);
                } else if j == old_users.len() {
                    assert(self.users@[i] == old_users[i]);
                } else {
                    assert(self.users@[i] == old_users[i]);
                    assert(self.users@[j] == old_users[j]);
                }
            }
        }
        Ok(result)
    }

    /// Registers an account: checks the input, refuses a taken email, hashes
    /// the password, stores user and credential together and signs a token
    /// issued at `now`. A password too long for Argon2 stores nothing and is
    /// `Internal`.
    pub fn register(
        &mut self,
        auth: &AuthService,
        req: &CreateUserRequest,
        user_id: u128,
        now: u64,
    ) -> (r: Result<AuthResponse, ApiError>)
        requires
            old(self).wf(),
            now <= u64::MAX - TOKEN_LIFETIME_SECS,
        ensures
            final(self).wf(),
            r is Err ==> final(self).same_as(*old(self)),
            registration_gate(old(self).users(), req.email@, req.full_name@, req.password@, user_id)
                matches Err(e) ==> r == Err::<AuthResponse, ApiError>(e),
            registration_gate(old(self).users(), req.email@, req.full_name@, req.password@, user_id)
                is Ok ==> r is Ok,
            r matches Ok(resp) ==> {
                &&& new_account_user(resp.user, user_id, req.email@, req.full_name@, now)
                &&& exists|h: Seq<char>|
                    account_added(*old(self), *final(self), resp.user, h) && #[trigger] phc_verdict(
                        req.password@,
                        h,
                    ) == Some(true)
                &&& jwt_claims(resp.token@, auth.secret()) == Some(
                    (user_id, req.email@, (now + TOKEN_LIFETIME_SECS) as u64),
                )
            },
    {
        validate_registration(req)?;
        if self.find_email(&req.email).is_some() {
            return Err(ApiError::Conflict);
        }
        if self.find_user(user_id).is_some() {
            return Err(ApiError::Internal);
        }
        let password = req.password.as_str();
        let bytes = password.as_bytes().len();
        proof {
            assert(password@ == req.password@);
        }
        if bytes > MAX_PASSWORD_BYTES {
            return Err(ApiError::Internal);
        }
        let hash = match auth.hash_password(req.password.as_str()) {
            Ok(h) => h,
            Err(_) => return Err(ApiError::Internal),
        };
        let user = self.insert_account(user_id, &req.email, &req.full_name, hash, now)?;
        let token = match auth.issue_token_at(user.id, user.email.as_str(), now) {
            Ok(t) => t,
            Err(_) => return Err(ApiError::Internal),
        };
        Ok(AuthResponse { token, user })
    }

    /// Logs in: the email must name a user with a password credential that
    /// accepts the password; each of these failures is the same `Unauthorized`.
    /// A stored hash that does not parse is `Internal`.
    pub fn login(&self, auth: &AuthService, req: &LoginRequest, now: u64) -> (r: Result<
        AuthResponse,
        ApiError,
    >)
        requires
            self.wf(),
            now <= u64::MAX - TOKEN_LIFETIME_SECS,
        ensures
            match login_gate(self.users(), self.credentials(), req.email@, req.password@) {
                Ok(i) => r matches Ok(resp) && resp.user == self.users()[i] && jwt_claims(
                    resp.token@,
                    auth.secret(),
                ) == Some(
                    (self.users()[i].id, req.email@, (now + TOKEN_LIFETIME_SECS) as u64),
                ),
                Err(e) => r == Err::<AuthResponse, ApiError>(e),
            },
    {
        validate_login(req)?;
        let i = match self.find_email(&req.email) {
            Some(i) => i,
            None => return Err(ApiError::Unauthorized),
        };
        let user = &self.users[i];
        let k = match self.find_credential(user.id) {
            Some(k) => k,
            None => return Err(ApiError::Unauthorized),
        };
        proof {
            let ci = choose|j: int|
                0 <= j < self.users().len() && (#[trigger] self.users()[j]).email@ == req.email@;
            assert(ci == i);
            if has_credential(self.credentials(), self.users()[ci].id) {
                let ck = choose|c: int|
                    0 <= c < self.credentials().len() && (#[trigger] self.credentials()[c]).user_id
                        == self.users()[ci].id;
                assert(ck == k);
            }
        }
        let ok = match auth.verify_password(req.password.as_str(), self.credentials[k].password_hash.as_str()) {
            Ok(b) => b,
            Err(_) => return Err(ApiError::Internal),
        };
        if !ok {
            return Err(ApiError::Unauthorized);
        }
        let token = match auth.issue_token_at(user.id, user.email.as_str(), now) {
            Ok(t) => t,
            Err(_) => return Err(ApiError::Internal),
        };
        Ok(AuthResponse { token, user: user.copied() })
    }

    /// Stores a pending connection from `sender` to `receiver_id` under id
    /// `id`, created at `now` (or at the latest stored creation time, where
    /// the clock reads earlier). No identity is `Unauthorized`, oneself `BadRequest`, an unknown
    /// receiver `NotFound`, an existing request for the same ordered pair
    /// `Conflict`, a taken id `Internal`; a refused request stores nothing.
    pub fn request_connection(
        &mut self,
        sender: Option<u128>,
        receiver_id: u128,
        id: u128,
        now: u64,
    ) -> (r: Result<Connection, ApiError>)
        requires
            old(self).wf(),
        ensures
            final(self).wf(),
            final(self).users() == old(self).users(),
            final(self).credentials() == old(self).credentials(),
            match request_gate(old(self).users(), old(self).connections(), sender, receiver_id, id) {
                Err(e) => r == Err::<Connection, ApiError>(e) && final(self).connections()
                    == old(self).connections(),
                Ok(_) => r matches Ok(c) && c == (Connection {
                    id,
                    sender_id: sender.unwrap(),
                    receiver_id,
                    status: ConnectionStatus::Pending,
                    created_at: creation_stamp(old(self).connections(), now),
                    updated_at: creation_stamp(old(self).connections(), now),
                }) && final(self).connections() == old(self).connections().push(c),
            },
    {
        let s = match sender {
            None => return Err(ApiError::Unauthorized),
            Some(s) => s,
        };
        if s == receiver_id {
            return Err(ApiError::BadRequest);
        }
        if self.find_user(receiver_id).is_none() {
            return Err(ApiError::NotFound);
        }
        if self.has_pair(s, receiver_id) {
            return Err(ApiError::Conflict);
        }
        if self.has_connection_id(id) {
            return Err(ApiError::Internal);
        }
        let n = self.connections.len();
        let stamp = if n > 0 && now < self.connections[n - 1].created_at {
            self.connections[n - 1].created_at
        } else {
            now
        };
        let c = Connection {
            id,
            sender_id: s,
            receiver_id,
            status: ConnectionStatus::Pending,
            created_at: stamp,
            updated_at: stamp,
        };
        let ghost old_conns = self.connections@;
        self.connections.push(c);
        proof {
            assert forall|a: int, b: int|
                0 <= a < self.connections@.len() && 0 <= b < self.connections@.len() && a != b
                    implies (#[trigger] self.connections@[a]).id != (#[trigger] self.connections@[b]).id
                && (self.connections@[a].sender_id != self.connections@[b].sender_id
                || self.connections@[a].receiver_id != self.connections@[b].receiver_id) by {
                if a == old_conns.len() {
                    assert(self.connections@[b] == old_conns[b]);
                } else if b == old_conns.len() {
                    assert(self.connections@[a] == old_conns[a]);
                } else {
                    assert(self.connections@[a] == old_conns[a]);
                    assert(self.connections@[b] == old_conns[b]);
                }
            }
            assert forall|a: int| 0 <= a < self.connections@.len() implies (
            #[trigger] self.connections@[a]).sender_id != self.connections@[a].receiver_id by {
                if a < old_conns.len() {
                    assert(self.connections@[a] == old_conns[a]);
                }
            }
            assert forall|a: int, b: int| 0 <= a < b < self.connections@.len() implies (
            #[trigger] self.connections@[a]).created_at <= (#[trigger] self.connections@[b]).created_at by {
                assert(self.connections@[a] == old_conns[a]);
                if b < old_conns.len() {
                    assert(self.connections@[b] == old_conns[b]);
                } else if a < old_conns.len() - 1 {
                    assert(old_conns[a].created_at <= old_conns[old_conns.len() - 1].created_at);
                }
            }
        }
        Ok(c)
    }

    /// The receiver of a pending connection answers it with `status`: one
    /// conditioned update on id, receiver and pending status. A missing
    /// connection, one addressed to someone else and one already answered are
    /// all the same `NotFound`; `Pending` is no answer (`BadRequest`).
    pub fn respond(
        &mut self,
        caller: Option<u128>,
        id: u128,
        status: ConnectionStatus,
        now: u64,
    ) -> (r: Result<ConnectionStatus, ApiError>)
        requires
            old(self).wf(),
        ensures
            final(self).wf(),
            final(self).users() == old(self).users(),
            final(self).credentials() == old(self).credentials(),
            match respond_gate(old(self).connections(), caller, id, status) {
                Err(e) => r == Err::<ConnectionStatus, ApiError>(e) && final(self).connections()
                    == old(self).connections(),
                Ok(_) => r == Ok::<ConnectionStatus, ApiError>(status) && exists|i: int|
                    #[trigger] answerable_at(old(self).connections(), i, id, caller.unwrap())
                        && final(self).connections() == old(self).connections().update(
                        i,
                        responded(old(self).connections()[i], status, now),
                    ),
            },
    {
        let u = match caller {
            None => return Err(ApiError::Unauthorized),
            Some(u) => u,
        };
        if !status.is_response() {
            return Err(ApiError::BadRequest);
        }
        let i = match self.find_answerable(id, u) {
            None => return Err(ApiError::NotFound),
            Some(i) => i,
        };
        let old_c = self.connections[i];
        let ghost old_conns = self.connections@;
        let c = Connection {
            id: old_c.id,
            sender_id: old_c.sender_id,
            receiver_id: old_c.receiver_id,
            status,
            created_at: old_c.created_at,
            updated_at: now,
        };
        self.connections.set(i, c);
        proof {
            assert(self.connections@ == old_conns.update(i as int, responded(old_conns[i as int], status, now)));
            assert forall|a: int, b: int|
                0 <= a < self.connections@.len() && 0 <= b < self.connections@.len() && a != b
                    implies (#[trigger] self.connections@[a]).id != (#[trigger] self.connections@[b]).id
                && (self.connections@[a].sender_id != self.connections@[b].sender_id
                || self.connections@[a].receiver_id != self.connections@[b].receiver_id) by {
                assert(old_conns[a].id != old_conns[b].id);
            }
            assert forall|a: int| 0 <= a < self.connections@.len() implies (
            #[trigger] self.connections@[a]).sender_id != self.connections@[a].receiver_id by {
                assert(old_conns[a].sender_id != old_conns[a].receiver_id);
            }
            assert forall|a: int, b: int| 0 <= a < b < self.connections@.len() implies (
            #[trigger] self.connections@[a]).created_at <= (#[trigger] self.connections@[b]).created_at by {
                assert(old_conns[a].created_at <= old_conns[b].created_at);
            }
        }
        Ok(status)
    }

    fn collect_newest(&self, user: u128, pending: bool) -> (r: Vec<Connection>)
        ensures
            r@ == newest_first(self.connections(), user, pending),
    {
        let ghost s = self.connections@;
        let mut out: Vec<Connection> = Vec::new();
        let mut i: usize = self.connections.len();
        proof {
            assert(s.subrange(i as int, s.len() as int) =~= Seq::<Connection>::empty());
        }
        while i > 0
            invariant
                i <= s.len(),
                s == self.connections@,
                out@ == newest_first(s.subrange(i as int, s.len() as int), user, pending),
            decreases i,
        {
            let c = self.connections[i - 1];
            let keep = if pending {
                c.receiver_id == user && c.status == ConnectionStatus::Pending
            } else {
                (c.sender_id == user || c.receiver_id == user) && c.status == ConnectionStatus::Accepted
            };
            proof {
                let t = s.subrange(i - 1, s.len() as int);
                assert(t.subrange(1, t.len() as int) =~= s.subrange(i as int, s.len() as int));
                assert(t[0] == c);
            }
            if keep {
                out.push(c);
            }
            i = i - 1;
        }
        proof {
            assert(s.subrange(0, s.len() as int) =~= s);
        }
        out
    }

    /// The pending requests addressed to the caller, newest created first;
    /// no identity is `Unauthorized`.
    pub fn pending_requests(&self, user: Option<u128>) -> (r: Result<Vec<Connection>, ApiError>)
        requires
            self.wf(),
        ensures
            match user {
                None => r == Err::<Vec<Connection>, ApiError>(ApiError::Unauthorized),
                Some(u) => r matches Ok(v) && v@ == newest_first(self.connections(), u, true)
                    && newest_created_first(v@),
            },
    {
        match user {
            None => Err(ApiError::Unauthorized),
            Some(u) => {
                proof {
                    lemma_newest_first_ordered(self.connections(), u, true);
                }
                Ok(self.collect_newest(u, true))
            },
        }
    }

    /// The accepted connections that the caller is part of, on either side,
    /// newest created first; no identity is `Unauthorized`.
    pub fn connections_of(&self, user: Option<u128>) -> (r: Result<Vec<Connection>, ApiError>)
        requires
            self.wf(),
        ensures
            match user {
                None => r == Err::<Vec<Connection>, ApiError>(ApiError::Unauthorized),
                Some(u) => r matches Ok(v) && v@ == newest_first(self.connections(), u, false)
                    && newest_created_first(v@),
            },
    {
        match user {
            None => Err(ApiError::Unauthorized),
            Some(u) => {
                proof {
                    lemma_newest_first_ordered(self.connections(), u, false);
                }
                Ok(self.collect_newest(u, false))
            },
        }
    }

    /// The connection with id `id`, if any.
    pub fn connection(&self, id: u128) -> (r: Option<Connection>)
        ensures
            match r {
                Some(c) => c.id == id && exists|i: int|
                    0 <= i < self.connections().len() && #[trigger] self.connections()[i] == c,
                None => !connection_id_taken(self.connections(), id),
            },
    {
        let mut i: usize = 0;
        while i < self.connections.len()
            invariant
                i <= self.connections@.len(),
                forall|j: int| 0 <= j < i ==> (#[trigger] self.connections@[j]).id != id,
            decreases self.connections@.len() - i,
        {
            if self.connections[i].id == id {
                assert(self.connections()[i as int] == self.connections@[i as int]);
                return Some(self.connections[i]);
            }
            i = i + 1;
        }
        None
    }

    /// A copy of the user with id `id`, if any.
    pub fn user(&self, id: u128) -> (r: Option<User>)
        ensures
            match r {
                Some(u) => u.id == id && exists|i: int|
                    0 <= i < self.users().len() && #[trigger] self.users()[i] == u,
                None => !user_id_taken(self.users(), id),
            },
    {
        match self.find_user(id) {
            Some(i) => Some(self.users[i].copied()),
            None => None,
        }
    }

    /// A copy of the user with email `email`, if any.
    pub fn user_by_email(&self, email: &String) -> (r: Option<User>)
        ensures
            match r {
                Some(u) => u.email@ == email@ && exists|i: int|
                    0 <= i < self.users().len() && #[trigger] self.users()[i] == u,
                None => !email_taken(self.users(), email@),
            },
    {
        match self.find_email(email) {
            Some(i) => Some(self.users[i].copied()),
            None => None,
        }
    }

    /// How many users are stored.
    pub fn user_count(&self) -> (r: usize)
        ensures
            r == self.users().len(),
    {
        self.users.len()
    }

    /// How many connections are stored, whatever their status.
    pub fn connection_count(&self) -> (r: usize)
        ensures
            r == self.connections().len(),
    {
        self.connections.len()
    }

    fn find_email(&self, email: &String) -> (r: Option<usize>)
        ensures
            match r {
                Some(i) => i < self.users().len() && self.users()[i as int].email@ == email@,
                None => !email_taken(self.users(), email@),
            },
    {
        let mut i: usize = 0;
        while i < self.users.len()
            invariant
                i <= self.users@.len(),
                forall|j: int| 0 <= j < i ==> (#[trigger] self.users@[j]).email@ != email@,
            decreases self.users@.len() - i,
        {
            if self.users[i].email == *email {
                return Some(i);
            }
            i = i + 1;
        }
        None
    }

    fn find_user(&self, id: u128) -> (r: Option<usize>)
        ensures
            match r {
                Some(i) => i < self.users().len() && self.users()[i as int].id == id,
                None => !user_id_taken(self.users(), id),
            },
    {
        let mut i: usize = 0;
        while i < self.users.len()
            invariant
                i <= self.users@.len(),
                forall|j: int| 0 <= j < i ==> (#[trigger] self.users@[j]).id != id,
            decreases self.users@.len() - i,
        {
            if self.users[i].id == id {
                return Some(i);
            }
            i = i + 1;
        }
        None
    }

    fn find_credential(&self, user_id: u128) -> (r: Option<usize>)
        ensures
            match r {
                Some(k) => k < self.credentials().len() && self.credentials()[k as int].user_id
                    == user_id,
                None => !has_credential(self.credentials(), user_id),
            },
    {
        let mut k: usize = 0;
        while k < self.credentials.len()
            invariant
                k <= self.credentials@.len(),
                forall|j: int| 0 <= j < k ==> (#[trigger] self.credentials@[j]).user_id != user_id,
            decreases self.credentials@.len() - k,
        {
            if self.credentials[k].user_id == user_id {
                return Some(k);
            }
            k = k + 1;
        }
        None
    }

    fn has_connection_id(&self, id: u128) -> (r: bool)
        ensures
            r == connection_id_taken(self.connections(), id),
    {
        let mut i: usize = 0;
        while i < self.connections.len()
            invariant
                i <= self.connections@.len(),
                forall|j: int| 0 <= j < i ==> (#[trigger] self.connections@[j]).id != id,
            decreases self.connections@.len() - i,
        {
            if self.connections[i].id == id {
                return true;
            }
            i = i + 1;
        }
        false
    }

    fn has_pair(&self, sender: u128, receiver: u128) -> (r: bool)
        ensures
            r == pair_taken(self.connections(), sender, receiver),
    {
        let mut i: usize = 0;
        while i < self.connections.len()
            invariant
                i <= self.connections@.len(),
                forall|j: int|
                    0 <= j < i ==> !((#[trigger] self.connections@[j]).sender_id == sender
                        && self.connections@[j].receiver_id == receiver),
            decreases self.connections@.len() - i,
        {
            if self.connections[i].sender_id == sender && self.connections[i].receiver_id == receiver {
                return true;
            }
            i = i + 1;
        }
        false
    }

    fn find_answerable(&self, id: u128, user: u128) -> (r: Option<usize>)
        ensures
            match r {
                Some(i) => answerable_at(self.connections(), i as int, id, user),
                None => !answerable(self.connections(), id, user),
            },
    {
        let mut i: usize = 0;
        while i < self.connections.len()
            invariant
                i <= self.connections@.len(),
                forall|j: int| 0 <= j < i ==> !#[trigger] answerable_at(self.connections@, j, id, user),
            decreases self.connections@.len() - i,
        {
            let c = self.connections[i];
            if c.id == id && c.receiver_id == user && c.status == ConnectionStatus::Pending {
                assert(answerable_at(self.connections(), i as int, id, user));
                return Some(i);
            }
            i = i + 1;
        }
        assert forall|j: int| !answerable_at(self.connections(), j, id, user) by {
            if 0 <= j < self.connections@.len() {
                assert(!answerable_at(self.connections@, j, id, user));
            }
        }
        None
    }
}

/// A second registration under an email that an account was stored with is
/// refused as `Conflict`, whatever its other input; the first account's
/// record stays where it was stored.
pub proof fn lemma_registered_email_conflicts(
    before: Directory,
    after: Directory,
    u: User,
    hash: Seq<char>,
    full_name: Seq<char>,
    password: Seq<char>,
    user_id: u128,
)
    requires
        account_added(before, after, u, hash),
        registration_valid(u.email@, full_name, password),
    ensures
        registration_gate(after.users(), u.email@, full_name, password, user_id) == Err::<
            (),
            ApiError,
        >(ApiError::Conflict),
        after.users()[before.users().len() as int] == u,
{
    let n = before.users().len() as int;
    assert(after.users()[n] == u);
    assert(email_taken(after.users(), u.email@));
}

/// A connection request from a user to that same user is a `BadRequest`,
/// whether or not the user exists.
pub proof fn lemma_self_request_rejected(users: Seq<User>, conns: Seq<Connection>, user: u128, id: u128)
    ensures
        request_gate(users, conns, Some(user), user, id) == Err::<(), ApiError>(ApiError::BadRequest),
{
}

/// Once a request from a sender to a receiver is stored, a second one for
/// the same ordered pair is a `Conflict`, and the store holds exactly one
/// row for the pair: the pending one.
pub proof fn lemma_repeated_request_conflicts(
    before: Directory,
    after: Directory,
    c: Connection,
    id: u128,
)
    requires
        request_gate(before.users(), before.connections(), Some(c.sender_id), c.receiver_id, c.id)
            is Ok,
        c.status == ConnectionStatus::Pending,
        after.users() == before.users(),
        after.connections() == before.connections().push(c),
    ensures
        request_gate(after.users(), after.connections(), Some(c.sender_id), c.receiver_id, id)
            == Err::<(), ApiError>(ApiError::Conflict),
        forall|j: int|
            0 <= j < after.connections().len() && (#[trigger] after.connections()[j]).sender_id
                == c.sender_id && after.connections()[j].receiver_id == c.receiver_id ==> j
                == before.connections().len(),
        after.connections()[before.connections().len() as int].status == ConnectionStatus::Pending,
{
    let n = before.connections().len() as int;
    assert(after.connections()[n] == c);
    assert(pair_taken(after.connections(), c.sender_id, c.receiver_id));
    assert forall|j: int|
        0 <= j < after.connections().len() && (#[trigger] after.connections()[j]).sender_id
            == c.sender_id && after.connections()[j].receiver_id == c.receiver_id implies j == n by {
        if j < n {
            assert(after.connections()[j] == before.connections()[j]);
            assert(pair_taken(before.connections(), c.sender_id, c.receiver_id));
        }
    }
}

/// A response to connection `id` from a user who is not its receiver is
/// `NotFound`.
pub proof fn lemma_foreign_response_not_found(
    conns: Seq<Connection>,
    id: u128,
    user: u128,
    status: ConnectionStatus,
)
    requires
        status != ConnectionStatus::Pending,
        forall|i: int| 0 <= i < conns.len() && (#[trigger] conns[i]).id == id ==> conns[i].receiver_id != user,
    ensures
        respond_gate(conns, Some(user), id, status) == Err::<(), ApiError>(ApiError::NotFound),
{
    assert forall|i: int| !#[trigger] answerable_at(conns, i, id, user) by {
        if 0 <= i < conns.len() && conns[i].id == id {
            assert(conns[i].receiver_id != user);
        }
    }
}

/// Once the receiver has answered a connection, any further answer to it is
/// `NotFound` and the first answer stays stored.
pub proof fn lemma_second_response_not_found(
    before: Seq<Connection>,
    i: int,
    id: u128,
    user: u128,
    first: ConnectionStatus,
    second: ConnectionStatus,
    now: u64,
)
    requires
        connections_wf(before),
        answerable_at(before, i, id, user),
        first != ConnectionStatus::Pending,
        second != ConnectionStatus::Pending,
    ensures
        respond_gate(before.update(i, responded(before[i], first, now)), Some(user), id, second)
            == Err::<(), ApiError>(ApiError::NotFound),
        before.update(i, responded(before[i], first, now))[i].status == first,
{
    let after = before.update(i, responded(before[i], first, now));
    assert forall|j: int| !#[trigger] answerable_at(after, j, id, user) by {
        if 0 <= j < after.len() && j != i {
            assert(after[j] == before[j]);
            assert(before[j].id != before[i].id);
        }
    }
}

/// Listing a store whose creation times never decrease yields connections
/// by creation time, newest first, each one listed for the user.
pub proof fn lemma_newest_first_ordered(s: Seq<Connection>, user: u128, pending: bool)
    requires
        forall|a: int, b: int| 0 <= a < b < s.len() ==> (#[trigger] s[a]).created_at <= (#[trigger] s[b]).created_at,
    ensures
        newest_created_first(newest_first(s, user, pending)),
        forall|k: int|
            0 <= k < newest_first(s, user, pending).len() ==> listed(
                #[trigger] newest_first(s, user, pending)[k],
                user,
                pending,
            ) && newest_first(s, user, pending)[k].created_at >= s[0].created_at,
    decreases s.len(),
{
    if s.len() > 0 {
        let t = s.subrange(1, s.len() as int);
        assert forall|a: int, b: int| 0 <= a < b < t.len() implies (#[trigger] t[a]).created_at <= (#[trigger] t[b]).created_at by {
            assert(t[a] == s[a + 1]);
            assert(t[b] == s[b + 1]);
        }
        lemma_newest_first_ordered(t, user, pending);
        let rest = newest_first(t, user, pending);
        if t.len() > 0 {
            assert(t[0] == s[1]);
            assert(s[0].created_at <= s[1].created_at);
        } else {
            assert(rest.len() == 0);
        }
    }
}

} // verus!
