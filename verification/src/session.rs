//! Sessions.
//!
//! A login binds a fresh random token to the identifier of the user and to
//! the user's password hash as it is at that moment, for a fixed lifetime. A
//! token is valid while its session is stored and has not run out, and while
//! the user it names still has that password hash: a changed password ends
//! every session made under the old one.

use crate::entropy::random_block;
use crate::models::{User, UserId, UserView};
use crate::password::constant_time_eq;
use crate::token::SessionToken;
use crate::store::{
    found_view, ids_are_distinct, lemma_user_with_id_at, user_with_id, Database, StoreError,
};
use std::collections::HashMap;
use vstd::prelude::*;

verus! {

broadcast use vstd::std_specs::hash::group_hash_axioms;

/// The view of a [`SessionRecord`].
pub struct SessionRecordView {
    pub user_id: Seq<u8>,
    pub fingerprint: Seq<u8>,
    pub expires_at: u64,
}

/// What the session manager keeps of a session: whose it is, the password
/// hash under which it was made, and the second at which it ends.
#[derive(Debug, PartialEq, Eq)]
pub struct SessionRecord {
    pub user_id: UserId,
    pub fingerprint: Vec<u8>,
    pub expires_at: u64,
}

impl View for SessionRecord {
    type V = SessionRecordView;

    open spec fn view(&self) -> SessionRecordView {
        SessionRecordView {
            user_id: self.user_id@,
            fingerprint: self.fingerprint@,
            expires_at: self.expires_at,
        }
    }
}

/// The second at which a session made at `now` ends. A session that would
/// end after the last second that a `u64` holds ends at that second.
pub open spec fn expiry(now: u64, lifetime: u64) -> u64 {
    if now + lifetime <= u64::MAX {
        (now + lifetime) as u64
    } else {
        u64::MAX
    }
}

/// The record of a session that `user` opens at `now`.
pub open spec fn record_for(user: UserView, now: u64, lifetime: u64) -> SessionRecordView {
    SessionRecordView {
        user_id: user.id->0,
        fingerprint: user.pw_hash,
        expires_at: expiry(now, lifetime),
    }
}

/// Whether `token` names a stored session that has not run out at `now`.
pub open spec fn is_live(sessions: Map<u128, SessionRecordView>, token: u128, now: u64) -> bool {
    sessions.contains_key(token) && now < sessions[token].expires_at
}

/// The user that a live session admits, given what the store holds under
/// the session's user identifier: that user, where it has the identifier and
/// still has the password hash under which the session was made.
pub open spec fn confirmed(
    sessions: Map<u128, SessionRecordView>,
    token: u128,
    now: u64,
    found: Option<UserView>,
) -> Option<UserView> {
    if is_live(sessions, token, now) && found is Some && found->0.id == Some(
        sessions[token].user_id,
    ) && found->0.pw_hash == sessions[token].fingerprint {
        found
    } else {
        None
    }
}

/// The user for whom `token` is valid at `now`, if it is valid.
pub open spec fn validated(
    sessions: Map<u128, SessionRecordView>,
    token: u128,
    now: u64,
    users: Seq<UserView>,
) -> Option<UserView> {
    if is_live(sessions, token, now) {
        confirmed(sessions, token, now, user_with_id(users, sessions[token].user_id))
    } else {
        None
    }
}

/// A session is valid from login on. Once `user`, a user of the store,
/// logs in at `now` under a token that names no session, the token is valid
/// for that user at every second before the session ends.
pub proof fn law_login_makes_the_token_valid(
    sessions: Map<u128, SessionRecordView>,
    token: u128,
    users: Seq<UserView>,
    at: int,
    now: u64,
    lifetime: u64,
    later: u64,
)
    requires
        ids_are_distinct(users),
        0 <= at < users.len(),
        users[at].id is Some,
        !sessions.contains_key(token),
        later < expiry(now, lifetime),
    ensures
        validated(
            sessions.insert(token, record_for(users[at], now, lifetime)),
            token,
            later,
            users,
        ) == Some(users[at]),
{
    lemma_user_with_id_at(users, at);
}

/// A session that has run out is invalid.
pub proof fn law_expired_session_is_invalid(
    sessions: Map<u128, SessionRecordView>,
    token: u128,
    users: Seq<UserView>,
    now: u64,
)
    requires
        sessions.contains_key(token),
        now >= sessions[token].expires_at,
    ensures
        validated(sessions, token, now, users) is None,
{
}

/// Logout ends the session: the token is invalid afterwards, whatever the
/// store holds. Every other token is as valid as it was.
pub proof fn law_logout_invalidates_the_token(
    sessions: Map<u128, SessionRecordView>,
    token: u128,
    other: u128,
    users: Seq<UserView>,
    now: u64,
)
    ensures
        validated(sessions.remove(token), token, now, users) is None,
        other != token ==> validated(sessions.remove(token), other, now, users) == validated(
            sessions,
            other,
            now,
            users,
        ),
{
}

/// Logout is idempotent: a second logout changes nothing.
pub proof fn law_logout_twice_is_logout_once(sessions: Map<u128, SessionRecordView>, token: u128)
    ensures
        sessions.remove(token).remove(token) == sessions.remove(token),
{
    assert(sessions.remove(token).remove(token) =~= sessions.remove(token));
}

/// A changed password ends the session. Where the user that the store
/// holds under the session's identifier has another password hash than the
/// one under which the session was made, or where the store holds no such
/// user, the token is invalid.
pub proof fn law_changed_password_invalidates_the_token(
    sessions: Map<u128, SessionRecordView>,
    token: u128,
    users: Seq<UserView>,
    now: u64,
)
    requires
        sessions.contains_key(token),
        match user_with_id(users, sessions[token].user_id) {
            Some(user) => user.pw_hash != sessions[token].fingerprint,
            None => true,
        },
    ensures
        validated(sessions, token, now, users) is None,
{
}

/// Sessions are independent: a login under one token changes the validity
/// of no other token.
pub proof fn law_login_leaves_other_tokens(
    sessions: Map<u128, SessionRecordView>,
    token: u128,
    record: SessionRecordView,
    other: u128,
    users: Seq<UserView>,
    now: u64,
)
    requires
        other != token,
    ensures
        validated(sessions.insert(token, record), other, now, users) == validated(
            sessions,
            other,
            now,
            users,
        ),
{
}

/// The view of a [`SessionManager`].
pub struct SessionManagerView {
    pub sessions: Map<u128, SessionRecordView>,
    pub lifetime: u64,
}

/// The sessions of the running service, by token.
pub struct SessionManager {
    sessions: HashMap<u128, SessionRecord>,
    lifetime: u64,
}

impl View for SessionManager {
    type V = SessionManagerView;

    closed spec fn view(&self) -> SessionManagerView {
        SessionManagerView {
            sessions: self.sessions@.map_values(|record: SessionRecord| record@),
            lifetime: self.lifetime,
        }
    }
}

impl SessionManager {
    /// A session manager without sessions, whose sessions last `lifetime`
    /// seconds.
    pub fn new(lifetime: u64) -> (manager: SessionManager)
        ensures
            manager@.sessions == Map::<u128, SessionRecordView>::empty(),
            manager@.lifetime == lifetime,
    {
        let manager = SessionManager { sessions: HashMap::new(), lifetime };
        assert(manager@.sessions =~= Map::<u128, SessionRecordView>::empty());
        manager
    }

    /// Opens a session for `user` under `token`, unless a session is stored
    /// under that token already.
    pub fn bind(&mut self, token: SessionToken, user: &User, now: u64) -> (bound: bool)
        requires
            user.id is Some,
        ensures
            bound == !old(self)@.sessions.contains_key(token.value),
            bound ==> final(self)@ == (SessionManagerView {
                sessions: old(self)@.sessions.insert(
                    token.value,
                    record_for(user@, now, old(self)@.lifetime),
                ),
                lifetime: old(self)@.lifetime,
            }),
            !bound ==> final(self)@ == old(self)@,
    {
        if self.sessions.contains_key(&token.value) {
            return false;
        }
        let expires_at = if now <= u64::MAX - self.lifetime {
            now + self.lifetime
        } else {
            u64::MAX
        };
        let record = SessionRecord {
            user_id: user.id(),
            fingerprint: crate::models::copy_vec(&user.pw_hash),
            expires_at,
        };
        let ghost before = self@.sessions;
        self.sessions.insert(token.value, record);
        assert(self@.sessions =~= before.insert(
            token.value,
            record_for(user@, now, self.lifetime),
        ));
        true
    }

    /// Opens a session for `user` under a token drawn at random and returns
    /// the token. Where the token drawn is that of a stored session, no
    /// session is opened and nothing changes. A login into a manager that
    /// stores no session cannot meet a stored token, and opens a session.
    pub fn login(&mut self, user: &User, now: u64) -> (token: Option<SessionToken>)
        requires
            user.id is Some,
        ensures
            (forall|stored: u128| !old(self)@.sessions.contains_key(stored)) ==> token is Some,
            match token {
                Some(t) => !old(self)@.sessions.contains_key(t.value) && final(self)@ == (
                SessionManagerView {
                    sessions: old(self)@.sessions.insert(
                        t.value,
                        record_for(user@, now, old(self)@.lifetime),
                    ),
                    lifetime: old(self)@.lifetime,
                }),
                None => final(self)@ == old(self)@,
            },
    {
        let block = random_block();
        let token = SessionToken { value: vstd::bytes::u128_from_le_bytes(block.as_slice()) };
        if self.bind(token, user, now) {
            Some(token)
        } else {
            None
        }
    }

    /// The identifier of the user whose live session `token` names, if it
    /// names one.
    pub fn owner(&self, token: &SessionToken, now: u64) -> (owner: Option<UserId>)
        ensures
            owner is Some <==> is_live(self@.sessions, token.value, now),
            owner matches Some(id) ==> id@ == self@.sessions[token.value].user_id,
    {
        match self.sessions.get(&token.value) {
            None => None,
            Some(record) => {
                if now < record.expires_at {
                    Some(record.user_id)
                } else {
                    None
                }
            },
        }
    }

    /// Decides on a token, given what the store answered when asked for the
    /// user of the token's session. The user is returned where the session
    /// is live and the user still has the password hash under which it was
    /// made; `Ok(None)` says that the token is invalid. A failure of the
    /// store is handed on.
    pub fn confirm(
        &self,
        token: &SessionToken,
        now: u64,
        found: Result<Option<&User>, StoreError>,
    ) -> (outcome: Result<Option<User>, StoreError>)
        ensures
            match found {
                Err(e) => outcome == Err::<Option<User>, StoreError>(e),
                Ok(user) => outcome is Ok && owned_view(outcome->Ok_0) == confirmed(
                    self@.sessions,
                    token.value,
                    now,
                    found_view(user),
                ),
            },
    {
        match found {
            Err(e) => Err(e),
            Ok(None) => Ok(None),
            Ok(Some(user)) => {
                match self.sessions.get(&token.value) {
                    None => Ok(None),
                    Some(record) => {
                        let same_user = match &user.id {
                            Some(id) => id.same_as(&record.user_id),
                            None => false,
                        };
                        if now < record.expires_at && same_user && constant_time_eq(
                            user.session_auth_hash(),
                            record.fingerprint.as_slice(),
                        ) {
                            Ok(Some(user.clone()))
                        } else {
                            Ok(None)
                        }
                    },
                }
            },
        }
    }

    /// The user for whom `token` is valid at `now`, or `None` where the
    /// token is invalid: no session is stored under it, the session has run
    /// out, the store has no user of the session's identifier, or that
    /// user's password hash is no longer the one the session was made under.
    pub fn validate(&self, token: &SessionToken, now: u64, db: &Database) -> (user: Option<User>)
        ensures
            owned_view(user) == validated(self@.sessions, token.value, now, db@.users),
    {
        match self.owner(token, now) {
            None => None,
            Some(id) => {
                match self.confirm(token, now, Ok(db.find_user_by_id(&id))) {
                    Ok(user) => user,
                    Err(_) => None,
                }
            },
        }
    }

    /// Ends the session of a token that is no longer valid, given what the
    /// store answered when asked for the user of the token's session. A
    /// session is ended where it is stored and the token is not valid for
    /// the user found: the session has run out, the store holds no such
    /// user, or the user has another password hash. A valid session stays,
    /// and so does every session while the store fails.
    pub fn end_if_invalid(
        &mut self,
        token: &SessionToken,
        now: u64,
        found: Result<Option<&User>, StoreError>,
    ) -> (ended: bool)
        ensures
            ended == (found is Ok && old(self)@.sessions.contains_key(token.value) && confirmed(
                old(self)@.sessions,
                token.value,
                now,
                found_view(found->Ok_0),
            ) is None),
            final(self)@ == if ended {
                SessionManagerView {
                    sessions: old(self)@.sessions.remove(token.value),
                    lifetime: old(self)@.lifetime,
                }
            } else {
                old(self)@
            },
    {
        if !self.sessions.contains_key(&token.value) {
            return false;
        }
        match self.confirm(token, now, found) {
            Ok(None) => {
                self.logout(token);
                true
            },
            _ => false,
        }
    }

    /// Ends the session of a token that is no longer valid for the user
    /// that the store holds under the session's identifier.
    pub fn invalidate(&mut self, token: &SessionToken, now: u64, db: &Database) -> (ended: bool)
        ensures
            ended == (old(self)@.sessions.contains_key(token.value) && validated(
                old(self)@.sessions,
                token.value,
                now,
                db@.users,
            ) is None),
            final(self)@ == if ended {
                SessionManagerView {
                    sessions: old(self)@.sessions.remove(token.value),
                    lifetime: old(self)@.lifetime,
                }
            } else {
                old(self)@
            },
    {
        match self.sessions.get(&token.value) {
            None => false,
            Some(record) => {
                let found = db.find_user_by_id(&record.user_id);
                self.end_if_invalid(token, now, Ok(found))
            },
        }
    }

    /// Ends the session stored under `token`. Where none is stored under
    /// it, nothing changes.
    pub fn logout(&mut self, token: &SessionToken)
        ensures
            final(self)@ == (SessionManagerView {
                sessions: old(self)@.sessions.remove(token.value),
                lifetime: old(self)@.lifetime,
            }),
    {
        let ghost before = self@.sessions;
        self.sessions.remove(&token.value);
        assert(self@.sessions =~= before.remove(token.value));
    }
}

/// The view of a user that a function hands out, if it hands one out.
pub open spec fn owned_view(user: Option<User>) -> Option<UserView> {
    match user {
        Some(u) => Some(u@),
        None => None,
    }
}

} // verus!
