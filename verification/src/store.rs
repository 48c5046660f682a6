//! The document store: the users, found by their unique name, and the
//! catalog of exercises.
//!
//! The store keeps two collections in memory. No two users of the store have
//! the same name, and no two have the same identifier: an insert that would
//! break either is refused. A user's workout history only grows.

use crate::models::{
    sessions_view, Exercise, ExerciseView, GymSession, GymSessionView, User, UserId, UserView,
};
use vstd::prelude::*;

verus! {

/// Why the store did not carry out an operation.
#[derive(Debug, Clone, Copy, PartialEq, Eq, Structural)]
pub enum StoreError {
    /// The store could not be reached.
    Unavailable,
    /// A user of that name, or of that identifier, is already stored.
    DuplicateKey,
}

/// The views of a sequence of users.
pub open spec fn users_view(users: Seq<User>) -> Seq<UserView> {
    users.map_values(|user: User| user@)
}

/// The views of a sequence of exercises.
pub open spec fn exercises_view(exercises: Seq<Exercise>) -> Seq<ExerciseView> {
    exercises.map_values(|exercise: Exercise| exercise@)
}

/// The view of the user that a lookup found, if it found one.
pub open spec fn found_view(found: Option<&User>) -> Option<UserView> {
    match found {
        Some(user) => Some(user@),
        None => None,
    }
}

/// Whether a user of that name is among `users`.
pub open spec fn has_user_named(users: Seq<UserView>, name: Seq<char>) -> bool {
    exists|i: int| 0 <= i < users.len() && (#[trigger] users[i]).name == name
}

/// The place of a user of that name among `users`.
pub open spec fn place_of_name(users: Seq<UserView>, name: Seq<char>) -> int {
    choose|i: int| 0 <= i < users.len() && (#[trigger] users[i]).name == name
}

/// The user of that name, if there is one.
pub open spec fn user_named(users: Seq<UserView>, name: Seq<char>) -> Option<UserView> {
    if has_user_named(users, name) {
        Some(users[place_of_name(users, name)])
    } else {
        None
    }
}

/// Whether a user of that identifier is among `users`.
pub open spec fn has_user_with_id(users: Seq<UserView>, id: Seq<u8>) -> bool {
    exists|i: int| 0 <= i < users.len() && (#[trigger] users[i]).id == Some(id)
}

/// The user of that identifier, if there is one.
pub open spec fn user_with_id(users: Seq<UserView>, id: Seq<u8>) -> Option<UserView> {
    if has_user_with_id(users, id) {
        Some(users[choose|i: int| 0 <= i < users.len() && (#[trigger] users[i]).id == Some(id)])
    } else {
        None
    }
}

/// No two users have the same name.
pub open spec fn names_are_distinct(users: Seq<UserView>) -> bool {
    forall|i: int, j: int|
        0 <= i < j < users.len() ==> (#[trigger] users[i]).name != (#[trigger] users[j]).name
}

/// No two users have the same identifier.
pub open spec fn ids_are_distinct(users: Seq<UserView>) -> bool {
    forall|i: int, j: int|
        0 <= i < j < users.len() && (#[trigger] users[i]).id is Some ==> users[i].id != (
        #[trigger] users[j]).id
}

/// What holds of the users of every store.
pub open spec fn is_consistent(users: Seq<UserView>) -> bool {
    names_are_distinct(users) && ids_are_distinct(users)
}

/// The user with one more session at the end of the history.
pub open spec fn with_session(user: UserView, session: GymSessionView) -> UserView {
    UserView { gym_sessions: user.gym_sessions.push(session), ..user }
}

/// The users after `session` is appended to the history of the user named
/// `name`: that user's history has grown by the session, every other user is
/// as before. Where there is no such user, nothing changes.
pub open spec fn append_session(users: Seq<UserView>, name: Seq<char>, session: GymSessionView) -> Seq<
    UserView,
> {
    if has_user_named(users, name) {
        users.update(
            place_of_name(users, name),
            with_session(users[place_of_name(users, name)], session),
        )
    } else {
        users
    }
}

/// Among users of distinct names, the user found under a name is the one
/// user that has it.
pub proof fn lemma_user_named_at(users: Seq<UserView>, i: int)
    requires
        names_are_distinct(users),
        0 <= i < users.len(),
    ensures
        has_user_named(users, users[i].name),
        place_of_name(users, users[i].name) == i,
        user_named(users, users[i].name) == Some(users[i]),
{
    let name = users[i].name;
    let at = place_of_name(users, name);
    assert(0 <= at < users.len() && users[at].name == name);
    if at < i {
        assert(users[at].name != users[i].name);
    } else if i < at {
        assert(users[i].name != users[at].name);
    }
}

/// Among users of distinct identifiers, the user found under an identifier
/// is the one user that has it.
pub proof fn lemma_user_with_id_at(users: Seq<UserView>, i: int)
    requires
        ids_are_distinct(users),
        0 <= i < users.len(),
        users[i].id is Some,
    ensures
        user_with_id(users, users[i].id->0) == Some(users[i]),
{
    let id = users[i].id->0;
    let at = choose|k: int| 0 <= k < users.len() && (#[trigger] users[k]).id == Some(id);
    assert(0 <= at < users.len() && users[at].id == Some(id));
    if at < i {
        assert(users[at].id != users[i].id);
    } else if i < at {
        assert(users[i].id != users[at].id);
    }
}

/// An insert under a free name and a free identifier keeps the store
/// consistent. The new user is found under its name, and every other name
/// finds what it found before.
pub proof fn law_insert_keeps_the_store_consistent(
    users: Seq<UserView>,
    user: UserView,
    other: Seq<char>,
)
    requires
        is_consistent(users),
        !has_user_named(users, user.name),
        user.id is Some ==> !has_user_with_id(users, user.id->0),
    ensures
        is_consistent(users.push(user)),
        user_named(users.push(user), user.name) == Some(user),
        other != user.name ==> user_named(users.push(user), other) == user_named(users, other),
{
    let after = users.push(user);
    assert forall|i: int, j: int| 0 <= i < j < after.len() implies (#[trigger] after[i]).name != (
    #[trigger] after[j]).name by {
        if j == users.len() {
            assert(users[i].name != user.name);
        } else {
            assert(users[i].name != users[j].name);
        }
    }
    assert forall|i: int, j: int|
        0 <= i < j < after.len() && (#[trigger] after[i]).id is Some implies after[i].id != (
    #[trigger] after[j]).id by {
        if j == users.len() {
            if user.id is Some {
                assert(users[i].id != Some(user.id->0));
            }
        } else {
            assert(users[i].id != users[j].id);
        }
    }
    assert(after[users.len() as int] == user);
    lemma_user_named_at(after, users.len() as int);
    if other != user.name {
        if has_user_named(users, other) {
            let at = place_of_name(users, other);
            assert(after[at] == users[at]);
            lemma_user_named_at(after, at);
        }
        if has_user_named(after, other) {
            let at = place_of_name(after, other);
            assert(after[at] == users[at]);
            lemma_user_named_at(users, at);
        }
    }
}

/// An append keeps the store consistent and changes the history of the
/// named user alone.
pub proof fn law_append_changes_one_history(
    users: Seq<UserView>,
    name: Seq<char>,
    session: GymSessionView,
)
    requires
        is_consistent(users),
        has_user_named(users, name),
    ensures
        is_consistent(append_session(users, name, session)),
        append_session(users, name, session).len() == users.len(),
        has_user_named(append_session(users, name, session), name),
        place_of_name(append_session(users, name, session), name) == place_of_name(users, name),
        user_named(append_session(users, name, session), name) == Some(
            with_session(user_named(users, name)->0, session),
        ),
        forall|i: int|
            0 <= i < users.len() && i != place_of_name(users, name) ==> (#[trigger] append_session(
                users,
                name,
                session,
            )[i]) == users[i],
{
    let at = place_of_name(users, name);
    let after = append_session(users, name, session);
    assert forall|i: int, j: int| 0 <= i < j < after.len() implies (#[trigger] after[i]).name != (
    #[trigger] after[j]).name by {
        assert(users[i].name != users[j].name);
    }
    assert forall|i: int, j: int|
        0 <= i < j < after.len() && (#[trigger] after[i]).id is Some implies after[i].id != (
    #[trigger] after[j]).id by {
        assert(users[i].id != users[j].id);
    }
    assert(after[at].name == name);
    lemma_user_named_at(after, at);
}

/// Two appends to the history of one user are both kept. Whichever of the
/// two sessions is appended first, both appends find the user, the history
/// ends in the two sessions, and what it held before is still in front of
/// them.
pub proof fn law_both_appends_are_kept(
    users: Seq<UserView>,
    name: Seq<char>,
    first: GymSessionView,
    second: GymSessionView,
)
    requires
        is_consistent(users),
        has_user_named(users, name),
    ensures
        has_user_named(append_session(users, name, first), name),
        user_named(append_session(append_session(users, name, first), name, second), name)
            is Some,
        user_named(
            append_session(append_session(users, name, first), name, second),
            name,
        )->0.gym_sessions == user_named(users, name)->0.gym_sessions.push(first).push(second),
        user_named(
            append_session(append_session(users, name, second), name, first),
            name,
        )->0.gym_sessions == user_named(users, name)->0.gym_sessions.push(second).push(first),
{
    law_append_changes_one_history(users, name, first);
    law_append_changes_one_history(append_session(users, name, first), name, second);
    law_append_changes_one_history(users, name, second);
    law_append_changes_one_history(append_session(users, name, second), name, first);
}

/// Appends to the histories of two users do not touch each other: either
/// order leaves the same store.
pub proof fn law_appends_to_two_users_commute(
    users: Seq<UserView>,
    one: Seq<char>,
    other: Seq<char>,
    first: GymSessionView,
    second: GymSessionView,
)
    requires
        is_consistent(users),
        one != other,
    ensures
        append_session(append_session(users, one, first), other, second) == append_session(
            append_session(users, other, second),
            one,
            first,
        ),
{
    if has_user_named(users, one) {
        law_append_changes_one_history(users, one, first);
    }
    if has_user_named(users, other) {
        law_append_changes_one_history(users, other, second);
    }
    let left = append_session(users, one, first);
    let right = append_session(users, other, second);
    lemma_append_keeps_names(users, one, first, other);
    lemma_append_keeps_names(users, other, second, one);
    if has_user_named(users, one) && has_user_named(users, other) {
        law_append_changes_one_history(left, other, second);
        law_append_changes_one_history(right, one, first);
        let a = place_of_name(users, one);
        let b = place_of_name(users, other);
        assert(left[b] == users[b]);
        assert(right[a] == users[a]);
    }
    assert(append_session(left, other, second) =~= append_session(right, one, first));
}

/// An append under one name neither adds nor removes a user of another
/// name, and leaves that user in its place.
proof fn lemma_append_keeps_names(
    users: Seq<UserView>,
    name: Seq<char>,
    session: GymSessionView,
    other: Seq<char>,
)
    requires
        is_consistent(users),
        other != name,
    ensures
        has_user_named(append_session(users, name, session), other) == has_user_named(users, other),
        has_user_named(users, other) ==> place_of_name(append_session(users, name, session), other)
            == place_of_name(users, other),
{
    let after = append_session(users, name, session);
    if has_user_named(users, name) {
        law_append_changes_one_history(users, name, session);
        let at = place_of_name(users, name);
        if has_user_named(users, other) {
            let b = place_of_name(users, other);
            assert(after[b] == users[b]);
            lemma_user_named_at(after, b);
        }
        if has_user_named(after, other) {
            let b = place_of_name(after, other);
            assert(b != at);
            assert(after[b] == users[b]);
            assert(users[b].name == other);
        }
    }
}

/// A copy of a vector of users.
pub fn clone_users(users: &Vec<User>) -> (copy: Vec<User>)
    ensures
        users_view(copy@) == users_view(users@),
{
    let mut copy: Vec<User> = Vec::new();
    let mut i: usize = 0;
    while i < users.len()
        invariant
            i <= users.len(),
            copy@.len() == i,
            forall|k: int| 0 <= k < i ==> (#[trigger] copy@[k])@ == users@[k]@,
        decreases users.len() - i,
    {
        copy.push(users[i].clone());
        i += 1;
    }
    assert(users_view(copy@) =~= users_view(users@));
    copy
}

/// A copy of a vector of exercises.
pub fn clone_exercises(exercises: &Vec<Exercise>) -> (copy: Vec<Exercise>)
    ensures
        exercises_view(copy@) == exercises_view(exercises@),
{
    let mut copy: Vec<Exercise> = Vec::new();
    let mut i: usize = 0;
    while i < exercises.len()
        invariant
            i <= exercises.len(),
            copy@.len() == i,
            forall|k: int| 0 <= k < i ==> (#[trigger] copy@[k])@ == exercises@[k]@,
        decreases exercises.len() - i,
    {
        copy.push(exercises[i].clone());
        i += 1;
    }
    assert(exercises_view(copy@) =~= exercises_view(exercises@));
    copy
}

/// The view of a [`Database`].
pub struct DatabaseView {
    pub users: Seq<UserView>,
    pub all_exercises: Seq<ExerciseView>,
}

/// The two collections of the service: the users and the exercise catalog.
pub struct Database {
    users: Vec<User>,
    all_exercises: Vec<Exercise>,
}

impl View for Database {
    type V = DatabaseView;

    closed spec fn view(&self) -> DatabaseView {
        DatabaseView {
            users: users_view(self.users@),
            all_exercises: exercises_view(self.all_exercises@),
        }
    }
}

impl Clone for Database {
    fn clone(&self) -> (copy: Database)
        ensures
            copy@ == self@,
    {
        proof {
            use_type_invariant(self);
        }
        Database {
            users: clone_users(&self.users),
            all_exercises: clone_exercises(&self.all_exercises),
        }
    }
}

impl Database {
    #[verifier::type_invariant]
    spec fn keys_are_unique(self) -> bool {
        is_consistent(users_view(self.users@))
    }

    /// A store without users and without exercises.
    pub fn new() -> (db: Database)
        ensures
            db@.users == Seq::<UserView>::empty(),
            db@.all_exercises == Seq::<ExerciseView>::empty(),
    {
        let db = Database { users: Vec::new(), all_exercises: Vec::new() };
        assert(db@.users =~= Seq::<UserView>::empty());
        assert(db@.all_exercises =~= Seq::<ExerciseView>::empty());
        db
    }

    /// The users of the store, in the order in which they were inserted.
    pub fn users(&self) -> (users: &Vec<User>)
        ensures
            users_view(users@) == self@.users,
            is_consistent(self@.users),
    {
        proof {
            use_type_invariant(self);
        }
        &self.users
    }

    /// The exercise catalog, in the order in which it was filled.
    pub fn all_exercises(&self) -> (exercises: &Vec<Exercise>)
        ensures
            exercises_view(exercises@) == self@.all_exercises,
    {
        &self.all_exercises
    }

    /// Puts `users` in the place of the users of the store and returns the
    /// users that the store held.
    fn replace_users(&mut self, users: Vec<User>) -> (previous: Vec<User>)
        requires
            is_consistent(users_view(users@)),
        ensures
            final(self).users == users,
            final(self).all_exercises == old(self).all_exercises,
            previous == old(self).users,
    {
        let mut users = users;
        core::mem::swap(&mut self.users, &mut users);
        users
    }

    /// Puts `exercises` in the place of the catalog and returns the catalog
    /// that the store held.
    fn replace_exercises(&mut self, exercises: Vec<Exercise>) -> (previous: Vec<Exercise>)
        ensures
            final(self).all_exercises == exercises,
            final(self).users == old(self).users,
            previous == old(self).all_exercises,
    {
        proof {
            use_type_invariant(&*self);
        }
        let mut exercises = exercises;
        core::mem::swap(&mut self.all_exercises, &mut exercises);
        exercises
    }

    /// The place of the user named `name`, if there is one.
    fn position_of_name(&self, name: &String) -> (place: Option<usize>)
        ensures
            is_consistent(self@.users),
            place is Some <==> has_user_named(self@.users, name@),
            place matches Some(i) ==> i < self.users@.len() && i == place_of_name(
                self@.users,
                name@,
            ),
    {
        proof {
            use_type_invariant(self);
        }
        let ghost users = self@.users;
        let mut i: usize = 0;
        while i < self.users.len()
            invariant
                i <= self.users@.len(),
                users == users_view(self.users@),
                users == self@.users,
                is_consistent(users),
                forall|k: int| 0 <= k < i ==> (#[trigger] users[k]).name != name@,
            decreases self.users@.len() - i,
        {
            if self.users[i].name == *name {
                proof {
                    lemma_user_named_at(users, i as int);
                }
                return Some(i);
            }
            i += 1;
        }
        None
    }

    /// The user named `name`, if there is one.
    pub fn find_user(&self, name: &String) -> (found: Option<&User>)
        ensures
            found_view(found) == user_named(self@.users, name@),
    {
        match self.position_of_name(name) {
            Some(i) => Some(&self.users[i]),
            None => None,
        }
    }

    /// The user with the identifier `id`, if there is one.
    pub fn find_user_by_id(&self, id: &UserId) -> (found: Option<&User>)
        ensures
            found_view(found) == user_with_id(self@.users, id@),
    {
        proof {
            use_type_invariant(self);
        }
        let ghost users = self@.users;
        let mut i: usize = 0;
        while i < self.users.len()
            invariant
                i <= self.users@.len(),
                users == users_view(self.users@),
                ids_are_distinct(users),
                forall|k: int| 0 <= k < i ==> (#[trigger] users[k]).id != Some(id@),
            decreases self.users@.len() - i,
        {
            let same = match &self.users[i].id {
                Some(other) => other.same_as(id),
                None => false,
            };
            if same {
                proof {
                    assert(users[i as int].id == Some(id@));
                    lemma_user_with_id_at(users, i as int);
                }
                return Some(&self.users[i]);
            }
            i += 1;
        }
        None
    }

    /// Inserts a user document as it is given. The store refuses, with
    /// `DuplicateKey`, a user whose name or whose identifier another user
    /// of the store has, and is then unchanged.
    pub fn insert_user(&mut self, user: User) -> (inserted: Result<(), StoreError>)
        ensures
            inserted is Err <==> has_user_named(old(self)@.users, user@.name) || (user@.id is Some
                && has_user_with_id(old(self)@.users, user@.id->0)),
            inserted is Err ==> inserted == Err::<(), StoreError>(StoreError::DuplicateKey)
                && final(self)@ == old(self)@,
            inserted is Ok ==> final(self)@ == (DatabaseView {
                users: old(self)@.users.push(user@),
                all_exercises: old(self)@.all_exercises,
            }),
    {
        proof {
            use_type_invariant(&*self);
        }
        if self.find_user(&user.name).is_some() {
            return Err(StoreError::DuplicateKey);
        }
        let taken = match &user.id {
            Some(id) => self.find_user_by_id(id).is_some(),
            None => false,
        };
        if taken {
            return Err(StoreError::DuplicateKey);
        }
        let ghost before = users_view(self.users@);
        let ghost added = user@;
        assert(users_view(Seq::<User>::empty()) =~= Seq::<UserView>::empty());
        let mut users = self.replace_users(Vec::new());
        users.push(user);
        proof {
            assert(users_view(users@) =~= before.push(added));
            law_insert_keeps_the_store_consistent(before, added, added.name);
        }
        let _ = self.replace_users(users);
        Ok(())
    }

    /// Appends a session to the history of the user named `name` and
    /// returns the number of users that matched the name: 1, or 0 where
    /// there is no such user and nothing was changed.
    pub fn push_session(&mut self, name: &String, session: GymSession) -> (matched: u64)
        ensures
            matched == if has_user_named(old(self)@.users, name@) {
                1u64
            } else {
                0u64
            },
            final(self)@ == (DatabaseView {
                users: append_session(old(self)@.users, name@, session@),
                all_exercises: old(self)@.all_exercises,
            }),
    {
        proof {
            use_type_invariant(&*self);
        }
        match self.position_of_name(name) {
            None => 0,
            Some(i) => {
                let ghost before = users_view(self.users@);
                let ghost added = session@;
                assert(users_view(Seq::<User>::empty()) =~= Seq::<UserView>::empty());
                let mut users = self.replace_users(Vec::new());
                users[i].gym_sessions.push(session);
                proof {
                    let after = users_view(users@);
                    assert(sessions_view(users@[i as int].gym_sessions@) =~= before[i as int].gym_sessions.push(
                        added,
                    ));
                    assert(after =~= before.update(i as int, with_session(before[i as int], added)));
                    law_append_changes_one_history(before, name@, added);
                }
                let _ = self.replace_users(users);
                1
            },
        }
    }

    /// Adds an exercise to the catalog.
    pub fn insert_exercise(&mut self, exercise: Exercise)
        ensures
            final(self)@ == (DatabaseView {
                users: old(self)@.users,
                all_exercises: old(self)@.all_exercises.push(exercise@),
            }),
    {
        proof {
            use_type_invariant(&*self);
        }
        let ghost before = exercises_view(self.all_exercises@);
        let mut exercises = self.replace_exercises(Vec::new());
        exercises.push(exercise);
        assert(exercises_view(exercises@) =~= before.push(exercise@));
        let _ = self.replace_exercises(exercises);
    }
}

} // verus!
