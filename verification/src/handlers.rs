//! The operations behind the routes of the service.
//!
//! Each operation comes in two forms. One takes the state of the service
//! and carries the operation out on its store. The other takes what a store
//! answered and decides the response: it serves a caller that keeps its
//! documents elsewhere and asks that store itself.

use crate::aggregate::{last_n_sets, last_n_sets_of};
use crate::models::{clone_sessions, sessions_view, Exercise, ExerciseSet, GymSession, User};
use crate::status::StatusCode;
use crate::store::{
    append_session, clone_exercises, clone_users, exercises_view, has_user_named,
    has_user_with_id, user_named, users_view, Database, DatabaseView, StoreError,
};
use vstd::prelude::*;

verus! {

/// The number of sets that the route for the last sets of an exercise
/// returns at most.
pub const LAST_SETS: usize = 3;

/// The state that the routes share: the store.
pub struct AppState {
    pub db: Database,
}

impl Clone for AppState {
    fn clone(&self) -> (copy: AppState)
        ensures
            copy.db@ == self.db@,
    {
        AppState { db: self.db.clone() }
    }
}

/// Answers a request that the store carried out or failed to carry out: a
/// failure of the store is answered with 500.
pub fn stored<T>(outcome: Result<T, StoreError>) -> (response: Result<T, StatusCode>)
    ensures
        match outcome {
            Ok(value) => response == Ok::<T, StatusCode>(value),
            Err(_) => response == Err::<T, StatusCode>(StatusCode::InternalServerError),
        },
{
    match outcome {
        Ok(value) => Ok(value),
        Err(_) => Err(StatusCode::InternalServerError),
    }
}

/// Answers an append to a user's history, given the number of users that
/// the store matched: 200 where it matched one, 404 where it matched none,
/// 500 where the store failed.
pub fn appended(matched: Result<u64, StoreError>) -> (response: Result<StatusCode, StatusCode>)
    ensures
        match matched {
            Err(_) => response == Err::<StatusCode, StatusCode>(StatusCode::InternalServerError),
            Ok(count) => if count == 1 {
                response == Ok::<StatusCode, StatusCode>(StatusCode::Success)
            } else {
                response == Err::<StatusCode, StatusCode>(StatusCode::NotFound)
            },
        },
{
    match matched {
        Err(_) => Err(StatusCode::InternalServerError),
        Ok(count) => {
            if count == 1 {
                Ok(StatusCode::Success)
            } else {
                Err(StatusCode::NotFound)
            }
        },
    }
}

/// The `n` most recent sets of an exercise, given what the store answered
/// when asked for the user: 404 where there is no such user, 500 where the
/// store failed. A user who never logged the exercise gets an empty list.
pub fn last_n_sets_found(
    found: Result<Option<&User>, StoreError>,
    exercise_name: &String,
    n: usize,
) -> (response: Result<Vec<ExerciseSet>, StatusCode>)
    ensures
        match found {
            Err(_) => response == Err::<Vec<ExerciseSet>, StatusCode>(
                StatusCode::InternalServerError,
            ),
            Ok(None) => response == Err::<Vec<ExerciseSet>, StatusCode>(StatusCode::NotFound),
            Ok(Some(user)) => response is Ok && response->Ok_0@ == last_n_sets_of(
                user@,
                exercise_name@,
                n as nat,
            ),
        },
{
    match found {
        Err(_) => Err(StatusCode::InternalServerError),
        Ok(None) => Err(StatusCode::NotFound),
        Ok(Some(user)) => Ok(last_n_sets(user, exercise_name, n)),
    }
}

/// The workout history of a user, given what the store answered when asked
/// for the user: 404 where there is no such user, 500 where the store
/// failed.
pub fn sessions_found(found: Result<Option<&User>, StoreError>) -> (response: Result<
    Vec<GymSession>,
    StatusCode,
>)
    ensures
        match found {
            Err(_) => response == Err::<Vec<GymSession>, StatusCode>(
                StatusCode::InternalServerError,
            ),
            Ok(None) => response == Err::<Vec<GymSession>, StatusCode>(StatusCode::NotFound),
            Ok(Some(user)) => response is Ok && sessions_view(response->Ok_0@)
                == user@.gym_sessions,
        },
{
    match found {
        Err(_) => Err(StatusCode::InternalServerError),
        Ok(None) => Err(StatusCode::NotFound),
        Ok(Some(user)) => Ok(clone_sessions(&user.gym_sessions)),
    }
}

/// Stores a user document as it is given and returns it. The store
/// refuses a document whose name or identifier is in use: the answer is then
/// 500 and the store is unchanged.
pub fn create_user(state: &mut AppState, payload: User) -> (response: Result<User, StatusCode>)
    ensures
        response is Err <==> has_user_named(old(state).db@.users, payload@.name) || (payload@.id is Some
            && has_user_with_id(old(state).db@.users, payload@.id->0)),
        response matches Err(status) ==> status == StatusCode::InternalServerError
            && final(state).db@ == old(state).db@,
        response matches Ok(user) ==> user@ == payload@ && final(state).db@ == (DatabaseView {
            users: old(state).db@.users.push(payload@),
            all_exercises: old(state).db@.all_exercises,
        }),
{
    let copy = payload.clone();
    match stored(state.db.insert_user(payload)) {
        Ok(()) => Ok(copy),
        Err(status) => Err(status),
    }
}

/// All users of the store, in the order in which they were inserted.
pub fn list_users(state: &AppState) -> (response: Result<Vec<User>, StatusCode>)
    ensures
        response is Ok,
        users_view(response->Ok_0@) == state.db@.users,
{
    Ok(clone_users(state.db.users()))
}

/// The `n` most recent sets that the user named `name` logged for the
/// exercise named `exercise_name`, most recent session first. A user who
/// never logged the exercise gets an empty list; an unknown name is answered
/// with 404.
pub fn get_last_n_for_user(state: &AppState, name: &String, exercise_name: &String, n: usize) -> (response:
    Result<Vec<ExerciseSet>, StatusCode>)
    ensures
        match user_named(state.db@.users, name@) {
            None => response == Err::<Vec<ExerciseSet>, StatusCode>(StatusCode::NotFound),
            Some(user) => response is Ok && response->Ok_0@ == last_n_sets_of(
                user,
                exercise_name@,
                n as nat,
            ),
        },
{
    last_n_sets_found(Ok(state.db.find_user(name)), exercise_name, n)
}

/// The three most recent sets that the user named `name` logged for the
/// exercise named `exercise_name`, most recent session first. A user who
/// never logged the exercise gets an empty list; an unknown name is answered
/// with 404.
pub fn get_last_3_for_user(state: &AppState, name: &String, exercise_name: &String) -> (response:
    Result<Vec<ExerciseSet>, StatusCode>)
    ensures
        match user_named(state.db@.users, name@) {
            None => response == Err::<Vec<ExerciseSet>, StatusCode>(StatusCode::NotFound),
            Some(user) => response is Ok && response->Ok_0@ == last_n_sets_of(
                user,
                exercise_name@,
                LAST_SETS as nat,
            ),
        },
{
    get_last_n_for_user(state, name, exercise_name, LAST_SETS)
}

/// The workout history of the user named `name`, in the order in which the
/// sessions were added. An unknown name is answered with 404.
pub fn get_user_sessions(state: &AppState, name: &String) -> (response: Result<
    Vec<GymSession>,
    StatusCode,
>)
    ensures
        match user_named(state.db@.users, name@) {
            None => response == Err::<Vec<GymSession>, StatusCode>(StatusCode::NotFound),
            Some(user) => response is Ok && sessions_view(response->Ok_0@) == user.gym_sessions,
        },
{
    sessions_found(Ok(state.db.find_user(name)))
}

/// Appends a session to the history of the user named `name`. An unknown
/// name is answered with 404 and changes nothing.
pub fn add_user_session(state: &mut AppState, name: &String, new_session: GymSession) -> (response:
    Result<StatusCode, StatusCode>)
    ensures
        response == if has_user_named(old(state).db@.users, name@) {
            Ok::<StatusCode, StatusCode>(StatusCode::Success)
        } else {
            Err::<StatusCode, StatusCode>(StatusCode::NotFound)
        },
        final(state).db@ == (DatabaseView {
            users: append_session(old(state).db@.users, name@, new_session@),
            all_exercises: old(state).db@.all_exercises,
        }),
{
    appended(Ok(state.db.push_session(name, new_session)))
}

/// Adds an exercise to the catalog.
pub fn add_excercise(state: &mut AppState, new_excercise: Exercise) -> (response: Result<
    StatusCode,
    StatusCode,
>)
    ensures
        response == Ok::<StatusCode, StatusCode>(StatusCode::Success),
        final(state).db@ == (DatabaseView {
            users: old(state).db@.users,
            all_exercises: old(state).db@.all_exercises.push(new_excercise@),
        }),
{
    state.db.insert_exercise(new_excercise);
    Ok(StatusCode::Success)
}

/// The exercise catalog, in the order in which it was filled.
pub fn get_exercises(state: &AppState) -> (response: Result<Vec<Exercise>, StatusCode>)
    ensures
        response is Ok,
        exercises_view(response->Ok_0@) == state.db@.all_exercises,
{
    Ok(clone_exercises(state.db.all_exercises()))
}

} // verus!
