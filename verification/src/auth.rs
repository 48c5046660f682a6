//! Authentication: creating users, checking a name and a password, and the
//! login that opens a session.
//!
//! An attempt under an unknown name and an attempt with a wrong password
//! end alike: both are rejected, and nothing tells them apart.

use crate::entropy::{random_block, random_object_id};
use crate::models::{Credentials, GymSessionView, User, UserId, UserView};
use crate::password::{
    hash_password, is_hashable, password_digest, password_matches, verify_password, WorkFactor,
    SALT_LEN,
};
use crate::session::{
    confirmed, owned_view, record_for, validated, SessionManager, SessionManagerView,
};
use crate::status::StatusCode;
use crate::token::SessionToken;
use crate::store::{
    found_view, has_user_named, has_user_with_id, is_consistent,
    law_insert_keeps_the_store_consistent, user_named, user_with_id, Database, DatabaseView,
    StoreError,
};
use vstd::prelude::*;

verus! {

/// The user whom an attempt authenticates, given what the store holds under
/// the name: that user, where the password is the one behind the stored
/// salt and hash.
pub open spec fn admitted(cost: u32, found: Option<UserView>, password: Seq<char>) -> Option<
    UserView,
> {
    if found is Some && password_matches(cost, found->0.salt, found->0.pw_hash, password) {
        found
    } else {
        None
    }
}

/// The user whom a name and a password authenticate among `users`.
pub open spec fn authenticated(
    cost: u32,
    users: Seq<UserView>,
    name: Seq<char>,
    password: Seq<char>,
) -> Option<UserView> {
    admitted(cost, user_named(users, name), password)
}

/// The document of a user at creation: the identifier, the name, the salt,
/// the digest of the password under that salt, and an empty history.
pub open spec fn new_user_view(
    cost: u32,
    id: Seq<u8>,
    name: Seq<char>,
    salt: Seq<u8>,
    password: Seq<char>,
) -> UserView {
    UserView {
        id: Some(id),
        name,
        pw_hash: password_digest(cost, salt, password),
        salt,
        gym_sessions: Seq::<GymSessionView>::empty(),
    }
}

/// A user authenticates right after creation. Once a user is created under
/// a free name and a free identifier with a salt of sixteen bytes and a
/// password that bcrypt takes, the store is consistent, the name and the
/// password authenticate that user, and another attempt under that name is
/// rejected unless bcrypt takes it and gives it the digest of the password.
pub proof fn law_created_user_authenticates(
    users: Seq<UserView>,
    cost: u32,
    id: Seq<u8>,
    name: Seq<char>,
    salt: Seq<u8>,
    password: Seq<char>,
    attempt: Seq<char>,
)
    requires
        is_consistent(users),
        !has_user_named(users, name),
        !has_user_with_id(users, id),
        salt.len() == SALT_LEN,
        is_hashable(password),
    ensures
        is_consistent(users.push(new_user_view(cost, id, name, salt, password))),
        authenticated(cost, users.push(new_user_view(cost, id, name, salt, password)), name, password)
            == Some(new_user_view(cost, id, name, salt, password)),
        authenticated(cost, users.push(new_user_view(cost, id, name, salt, password)), name, attempt)
            is None <==> !(is_hashable(attempt) && password_digest(cost, salt, attempt)
            == password_digest(cost, salt, password)),
{
    law_insert_keeps_the_store_consistent(
        users,
        new_user_view(cost, id, name, salt, password),
        name,
    );
}

/// Why a user was not created.
#[derive(Debug, Clone, Copy, PartialEq, Eq, Structural)]
pub enum CreateUserError {
    /// The password is empty or longer than 72 bytes.
    UnusablePassword,
    /// The store refused the user.
    Store(StoreError),
}

/// Decides an authentication attempt, given what the store answered when
/// asked for the user of the name. `Ok(Some(user))` authenticates the user;
/// `Ok(None)` rejects the attempt, whether the name is unknown, the password
/// wrong or the stored salt malformed. A failure of the store is handed on.
pub fn authenticate_found(
    factor: WorkFactor,
    found: Result<Option<&User>, StoreError>,
    password: &String,
) -> (outcome: Result<Option<User>, StoreError>)
    ensures
        match found {
            Err(e) => outcome == Err::<Option<User>, StoreError>(e),
            Ok(user) => outcome is Ok && owned_view(outcome->Ok_0) == admitted(
                factor@,
                found_view(user),
                password@,
            ),
        },
{
    match found {
        Err(e) => Err(e),
        Ok(None) => {
            // An unknown name costs the time of a known one.
            let decoy: [u8; 16] = [0u8; 16];
            let _ = hash_password(factor, &decoy, password);
            Ok(None)
        },
        Ok(Some(user)) => {
            if verify_password(factor, user, password) {
                Ok(Some(user.clone()))
            } else {
                Ok(None)
            }
        },
    }
}

/// The authentication backend: the store in which the users are looked up
/// and the work factor under which their passwords were hashed.
#[derive(Clone, Copy)]
pub struct Backend<'a> {
    pub db: &'a Database,
    pub factor: WorkFactor,
}

impl<'a> Backend<'a> {
    /// Checks a name and a password against the store. `Ok(Some(user))`
    /// authenticates the user; `Ok(None)` rejects the attempt.
    pub fn authenticate(&self, creds: Credentials) -> (outcome: Result<Option<User>, StoreError>)
        ensures
            outcome is Ok,
            owned_view(outcome->Ok_0) == authenticated(
                self.factor@,
                self.db@.users,
                creds.user_name@,
                creds.password@,
            ),
    {
        authenticate_found(self.factor, Ok(self.db.find_user(&creds.user_name)), &creds.password)
    }

    /// The user with the identifier `user_id`, if the store has one.
    pub fn get_user(&self, user_id: &UserId) -> (outcome: Result<Option<User>, StoreError>)
        ensures
            outcome is Ok,
            owned_view(outcome->Ok_0) == user_with_id(self.db@.users, user_id@),
    {
        match self.db.find_user_by_id(user_id) {
            Some(user) => Ok(Some(user.clone())),
            None => Ok(None),
        }
    }
}

/// The document of a new user, or `None` where bcrypt does not take the
/// password.
pub fn new_user(
    factor: WorkFactor,
    id: UserId,
    salt: &[u8; 16],
    user_name: &String,
    password: &String,
) -> (user: Option<User>)
    ensures
        user is Some <==> is_hashable(password@),
        user matches Some(u) ==> u@ == new_user_view(
            factor@,
            id@,
            user_name@,
            salt@,
            password@,
        ),
{
    match hash_password(factor, salt, password) {
        None => None,
        Some(pw_hash) => {
            let user = User {
                id: Some(id),
                name: user_name.clone(),
                pw_hash,
                salt: vstd::slice::slice_to_vec(salt.as_slice()),
                gym_sessions: Vec::new(),
            };
            assert(user@.gym_sessions =~= Seq::<GymSessionView>::empty());
            Some(user)
        },
    }
}

/// Creates a user with the given identifier and salt. The user is stored
/// where bcrypt takes the password and neither the name nor the identifier
/// is in use; otherwise the store is unchanged.
pub fn create_user_with(
    db: &mut Database,
    factor: WorkFactor,
    id: UserId,
    salt: &[u8; 16],
    user_name: &String,
    password: &String,
) -> (created: Result<(), CreateUserError>)
    ensures
        !is_hashable(password@) ==> created == Err::<(), CreateUserError>(
            CreateUserError::UnusablePassword,
        ),
        is_hashable(password@) && (has_user_named(old(db)@.users, user_name@) || has_user_with_id(
            old(db)@.users,
            id@,
        )) ==> created == Err::<(), CreateUserError>(
            CreateUserError::Store(StoreError::DuplicateKey),
        ),
        is_hashable(password@) && !has_user_named(old(db)@.users, user_name@) && !has_user_with_id(
            old(db)@.users,
            id@,
        ) ==> created is Ok,
        created is Err ==> final(db)@ == old(db)@,
        created is Ok ==> final(db)@ == (DatabaseView {
            users: old(db)@.users.push(
                new_user_view(factor@, id@, user_name@, salt@, password@),
            ),
            all_exercises: old(db)@.all_exercises,
        }),
{
    match new_user(factor, id, salt, user_name, password) {
        None => Err(CreateUserError::UnusablePassword),
        Some(user) => {
            match db.insert_user(user) {
                Ok(()) => Ok(()),
                Err(e) => Err(CreateUserError::Store(e)),
            }
        },
    }
}

/// The document of a new user under a new identifier and a salt drawn at
/// random, or `None` where bcrypt does not take the password.
pub fn fresh_user(factor: WorkFactor, user_name: &String, password: &String) -> (user: Option<User>)
    ensures
        user is Some <==> is_hashable(password@),
        user matches Some(u) ==> {
            &&& u@.id is Some
            &&& u@.salt.len() == SALT_LEN
            &&& u@ == new_user_view(factor@, u@.id->0, user_name@, u@.salt, password@)
        },
{
    let id = UserId { bytes: random_object_id() };
    let salt = random_block();
    new_user(factor, id, &salt, user_name, password)
}

/// Creates a user under a new identifier and a salt drawn at random. The
/// user is stored where bcrypt takes the password, the name is free and the
/// identifier drawn is not in use; otherwise the store is unchanged. In a
/// store whose users have no identifiers the identifier drawn cannot be in
/// use: there a password that bcrypt takes and a free name create the user.
pub fn create_user_console(
    db: &mut Database,
    factor: WorkFactor,
    user_name: &String,
    password: &String,
) -> (created: Result<(), CreateUserError>)
    ensures
        !is_hashable(password@) ==> created == Err::<(), CreateUserError>(
            CreateUserError::UnusablePassword,
        ),
        is_hashable(password@) && has_user_named(old(db)@.users, user_name@) ==> created is Err,
        is_hashable(password@) && !has_user_named(old(db)@.users, user_name@) && (forall|i: int|
            0 <= i < old(db)@.users.len() ==> (#[trigger] old(db)@.users[i]).id is None)
            ==> created is Ok,
        is_hashable(password@) && created is Err ==> created == Err::<(), CreateUserError>(
            CreateUserError::Store(StoreError::DuplicateKey),
        ),
        created is Err ==> final(db)@ == old(db)@,
        created is Ok ==> {
            let user = final(db)@.users.last();
            &&& final(db)@.all_exercises == old(db)@.all_exercises
            &&& final(db)@.users == old(db)@.users.push(user)
            &&& user.id is Some
            &&& !has_user_with_id(old(db)@.users, user.id->0)
            &&& !has_user_named(old(db)@.users, user_name@)
            &&& user.salt.len() == SALT_LEN
            &&& user == new_user_view(factor@, user.id->0, user_name@, user.salt, password@)
        },
{
    match fresh_user(factor, user_name, password) {
        None => Err(CreateUserError::UnusablePassword),
        Some(user) => {
            match db.insert_user(user) {
                Ok(()) => Ok(()),
                Err(e) => Err(CreateUserError::Store(e)),
            }
        },
    }
}

/// What a successful login leaves in the session manager.
pub open spec fn logged_in(
    before: SessionManagerView,
    token: SessionToken,
    user: UserView,
    now: u64,
) -> SessionManagerView {
    SessionManagerView {
        sessions: before.sessions.insert(token.value, record_for(user, now, before.lifetime)),
        lifetime: before.lifetime,
    }
}

/// Answers a login, given the outcome of the authentication. An
/// authenticated user gets a session and its token; a rejected attempt is
/// answered with 401; a failure of the store with 500, and so is a user for
/// whom no session can be opened: one without an identifier, or one whose
/// token was drawn twice. Where no session is stored no token can be drawn
/// twice: there an authenticated user with an identifier gets a session.
pub fn login_with(
    sessions: &mut SessionManager,
    outcome: Result<Option<User>, StoreError>,
    now: u64,
) -> (response: Result<SessionToken, StatusCode>)
    ensures
        outcome is Err ==> response == Err::<SessionToken, StatusCode>(
            StatusCode::InternalServerError,
        ),
        outcome == Ok::<Option<User>, StoreError>(None) ==> response == Err::<
            SessionToken,
            StatusCode,
        >(StatusCode::Unauthorized),
        outcome matches Ok(Some(user)) ==> match response {
            Ok(token) => user.id is Some && !old(sessions)@.sessions.contains_key(token.value)
                && final(sessions)@ == logged_in(old(sessions)@, token, user@, now),
            Err(status) => status == StatusCode::InternalServerError,
        },
        outcome matches Ok(Some(user)) ==> (user.id is Some && (forall|stored: u128|
            !old(sessions)@.sessions.contains_key(stored)) ==> response is Ok),
        response is Err ==> final(sessions)@ == old(sessions)@,
{
    match outcome {
        Err(_) => Err(StatusCode::InternalServerError),
        Ok(None) => Err(StatusCode::Unauthorized),
        Ok(Some(user)) => {
            if user.id.is_none() {
                return Err(StatusCode::InternalServerError);
            }
            match sessions.login(&user, now) {
                Some(token) => Ok(token),
                None => Err(StatusCode::InternalServerError),
            }
        },
    }
}

/// Logs a user in: checks the credentials against the store and, where
/// they authenticate a user, opens a session and returns its token. Wrong
/// credentials are answered with 401. Where no session is stored, an
/// authenticated user with an identifier gets a session.
pub fn login(backend: &Backend, sessions: &mut SessionManager, creds: Credentials, now: u64) -> (response:
    Result<SessionToken, StatusCode>)
    ensures
        match authenticated(
            backend.factor@,
            backend.db@.users,
            creds.user_name@,
            creds.password@,
        ) {
            None => response == Err::<SessionToken, StatusCode>(StatusCode::Unauthorized),
            Some(user) => match response {
                Ok(token) => user.id is Some && !old(sessions)@.sessions.contains_key(
                    token.value,
                ) && final(sessions)@ == logged_in(old(sessions)@, token, user, now),
                Err(status) => status == StatusCode::InternalServerError,
            },
        },
        authenticated(
            backend.factor@,
            backend.db@.users,
            creds.user_name@,
            creds.password@,
        ) matches Some(user) ==> (user.id is Some && (forall|stored: u128|
            !old(sessions)@.sessions.contains_key(stored)) ==> response is Ok),
        response is Err ==> final(sessions)@ == old(sessions)@,
{
    let outcome = backend.authenticate(creds);
    login_with(sessions, outcome, now)
}

/// Guards a route, given what the store answered when asked for the user of
/// the token's session. A request without a token, or with a token that is
/// not valid for the user found, is answered with 401; a failure of the
/// store with 500.
pub fn authorize_found(
    sessions: &SessionManager,
    token: Option<&SessionToken>,
    now: u64,
    found: Result<Option<&User>, StoreError>,
) -> (response: Result<User, StatusCode>)
    ensures
        match (token, found) {
            (None, _) => response == Err::<User, StatusCode>(StatusCode::Unauthorized),
            (Some(_), Err(_)) => response == Err::<User, StatusCode>(
                StatusCode::InternalServerError,
            ),
            (Some(t), Ok(user)) => match confirmed(
                sessions@.sessions,
                t.value,
                now,
                found_view(user),
            ) {
                Some(admitted) => response is Ok && response->Ok_0@ == admitted,
                None => response == Err::<User, StatusCode>(StatusCode::Unauthorized),
            },
        },
{
    match token {
        None => Err(StatusCode::Unauthorized),
        Some(t) => {
            match sessions.confirm(t, now, found) {
                Err(_) => Err(StatusCode::InternalServerError),
                Ok(None) => Err(StatusCode::Unauthorized),
                Ok(Some(user)) => Ok(user),
            }
        },
    }
}

/// Guards a route: the user for whom the token of the request is valid. A
/// request without a token, or with an invalid one, is answered with 401.
pub fn authorize(
    sessions: &SessionManager,
    token: Option<&SessionToken>,
    now: u64,
    db: &Database,
) -> (response: Result<User, StatusCode>)
    ensures
        match token {
            None => response == Err::<User, StatusCode>(StatusCode::Unauthorized),
            Some(t) => match validated(sessions@.sessions, t.value, now, db@.users) {
                Some(admitted) => response is Ok && response->Ok_0@ == admitted,
                None => response == Err::<User, StatusCode>(StatusCode::Unauthorized),
            },
        },
{
    match token {
        None => Err(StatusCode::Unauthorized),
        Some(t) => {
            match sessions.validate(t, now, db) {
                Some(user) => Ok(user),
                None => Err(StatusCode::Unauthorized),
            }
        },
    }
}

} // verus!
