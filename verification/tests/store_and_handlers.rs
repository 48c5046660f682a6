use gym_tracker::date::SessionDate;
use gym_tracker::handlers::{
    add_excercise, add_user_session, appended, create_user, get_exercises, get_user_sessions,
    list_users, sessions_found, stored, AppState, LAST_SETS,
};
use gym_tracker::models::{
    Exercise, ExerciseCategory, ExerciseLog, ExerciseSet, GymSession, MuscleGroup, User, UserId,
    Weight,
};
use gym_tracker::status::StatusCode;
use gym_tracker::store::{clone_exercises, clone_users, Database, StoreError};

fn person(id: Option<u8>, name: &str) -> User {
    User {
        id: id.map(|byte| UserId { bytes: [byte; 12] }),
        name: name.to_string(),
        pw_hash: vec![1, 2, 3],
        salt: vec![0; 16],
        gym_sessions: vec![],
    }
}

fn workout(day: u32, note: &str) -> GymSession {
    let exercise =
        Exercise::new("Row".to_string(), vec![MuscleGroup::Back], ExerciseCategory::Pull).unwrap();
    let set = ExerciseSet { weight: Weight::from_bits(40.0f64.to_bits()), reps: day, struggle_score: None };
    GymSession {
        date: SessionDate::from_ymd_opt(2024, 1, day).unwrap(),
        exercises: vec![ExerciseLog { exercise, sets: vec![set] }],
        notes: Some(note.to_string()),
    }
}

#[test]
fn a_new_store_is_empty() {
    let db = Database::new();
    assert!(db.users().is_empty());
    assert!(db.all_exercises().is_empty());
    assert!(db.find_user(&"ann".to_string()).is_none());
    assert!(db.find_user_by_id(&UserId { bytes: [0; 12] }).is_none());
}

#[test]
fn the_store_finds_users_by_name_and_by_identifier() {
    let mut db = Database::new();
    assert_eq!(db.insert_user(person(Some(1), "ann")), Ok(()));
    assert_eq!(db.insert_user(person(Some(2), "bob")), Ok(()));
    assert_eq!(db.insert_user(person(None, "cat")), Ok(()));
    assert_eq!(db.find_user(&"bob".to_string()), Some(&person(Some(2), "bob")));
    assert_eq!(db.find_user(&"cat".to_string()), Some(&person(None, "cat")));
    assert_eq!(db.find_user(&"Bob".to_string()), None);
    assert_eq!(db.find_user(&"".to_string()), None);
    assert_eq!(db.find_user_by_id(&UserId { bytes: [1; 12] }), Some(&person(Some(1), "ann")));
    assert_eq!(db.find_user_by_id(&UserId { bytes: [3; 12] }), None);
}

#[test]
fn the_store_refuses_a_second_user_of_a_name_or_an_identifier() {
    let mut db = Database::new();
    assert_eq!(db.insert_user(person(Some(1), "ann")), Ok(()));
    assert_eq!(db.insert_user(person(Some(2), "ann")), Err(StoreError::DuplicateKey));
    assert_eq!(db.insert_user(person(None, "ann")), Err(StoreError::DuplicateKey));
    assert_eq!(db.insert_user(person(Some(1), "bob")), Err(StoreError::DuplicateKey));
    assert_eq!(db.users().len(), 1);
    assert_eq!(db.insert_user(person(None, "bob")), Ok(()));
    assert_eq!(db.insert_user(person(None, "cat")), Ok(()));
    assert_eq!(db.users().len(), 3);
}

#[test]
fn an_append_matches_one_user_or_none() {
    let mut db = Database::new();
    assert_eq!(db.insert_user(person(Some(1), "ann")), Ok(()));
    assert_eq!(db.insert_user(person(Some(2), "bob")), Ok(()));
    assert_eq!(db.push_session(&"bob".to_string(), workout(1, "first")), 1);
    assert_eq!(db.push_session(&"cat".to_string(), workout(2, "lost")), 0);
    assert_eq!(db.push_session(&"bob".to_string(), workout(3, "second")), 1);
    let bob = db.find_user(&"bob".to_string()).unwrap();
    assert_eq!(bob.gym_sessions, vec![workout(1, "first"), workout(3, "second")]);
    assert_eq!(bob.id, Some(UserId { bytes: [2; 12] }));
    assert_eq!(db.find_user(&"ann".to_string()), Some(&person(Some(1), "ann")));
    assert_eq!(db.users().len(), 2);
    assert_eq!(db.users()[1].name, "bob");
}

#[test]
fn two_appends_to_one_user_are_both_kept_in_either_order() {
    let mut one = AppState { db: Database::new() };
    let mut other = AppState { db: Database::new() };
    assert!(create_user(&mut one, person(Some(1), "ann")).is_ok());
    assert!(create_user(&mut other, person(Some(1), "ann")).is_ok());
    let name = "ann".to_string();
    assert_eq!(add_user_session(&mut one, &name, workout(1, "a")), Ok(StatusCode::Success));
    assert_eq!(add_user_session(&mut one, &name, workout(2, "b")), Ok(StatusCode::Success));
    assert_eq!(add_user_session(&mut other, &name, workout(2, "b")), Ok(StatusCode::Success));
    assert_eq!(add_user_session(&mut other, &name, workout(1, "a")), Ok(StatusCode::Success));
    let first = get_user_sessions(&one, &name).unwrap();
    let second = get_user_sessions(&other, &name).unwrap();
    assert_eq!(first, vec![workout(1, "a"), workout(2, "b")]);
    assert_eq!(second, vec![workout(2, "b"), workout(1, "a")]);
    for sessions in [&first, &second] {
        assert!(sessions.contains(&workout(1, "a")));
        assert!(sessions.contains(&workout(2, "b")));
    }
}

#[test]
fn appends_to_two_users_do_not_touch_each_other() {
    let mut one = AppState { db: Database::new() };
    let mut other = AppState { db: Database::new() };
    for state in [&mut one, &mut other] {
        assert!(create_user(state, person(Some(1), "ann")).is_ok());
        assert!(create_user(state, person(Some(2), "bob")).is_ok());
    }
    let ann = "ann".to_string();
    let bob = "bob".to_string();
    assert!(add_user_session(&mut one, &ann, workout(1, "a")).is_ok());
    assert!(add_user_session(&mut one, &bob, workout(2, "b")).is_ok());
    assert!(add_user_session(&mut other, &bob, workout(2, "b")).is_ok());
    assert!(add_user_session(&mut other, &ann, workout(1, "a")).is_ok());
    assert_eq!(list_users(&one), list_users(&other));
    assert_eq!(get_user_sessions(&one, &ann).unwrap(), vec![workout(1, "a")]);
    assert_eq!(get_user_sessions(&one, &bob).unwrap(), vec![workout(2, "b")]);
}

#[test]
fn the_sessions_of_an_unknown_user_are_not_found() {
    let mut state = AppState { db: Database::new() };
    assert!(create_user(&mut state, person(Some(1), "ann")).is_ok());
    assert_eq!(get_user_sessions(&state, &"ann".to_string()), Ok(vec![]));
    assert_eq!(get_user_sessions(&state, &"bob".to_string()), Err(StatusCode::NotFound));
    assert_eq!(
        add_user_session(&mut state, &"bob".to_string(), workout(1, "lost")),
        Err(StatusCode::NotFound)
    );
    assert_eq!(list_users(&state), Ok(vec![person(Some(1), "ann")]));
}

#[test]
fn creating_a_user_returns_the_document_that_was_stored() {
    let mut state = AppState { db: Database::new() };
    let mut ann = person(Some(1), "ann");
    ann.gym_sessions.push(workout(5, "kept"));
    assert_eq!(create_user(&mut state, ann.clone()), Ok(ann.clone()));
    assert_eq!(create_user(&mut state, ann.clone()), Err(StatusCode::InternalServerError));
    assert_eq!(
        create_user(&mut state, person(Some(1), "bob")),
        Err(StatusCode::InternalServerError)
    );
    assert_eq!(list_users(&state), Ok(vec![ann]));
}

#[test]
fn users_are_listed_in_the_order_of_their_insertion() {
    let mut state = AppState { db: Database::new() };
    assert_eq!(list_users(&state), Ok(vec![]));
    for (id, name) in [(3, "cat"), (1, "ann"), (2, "bob")] {
        assert!(create_user(&mut state, person(Some(id), name)).is_ok());
    }
    let names: Vec<String> =
        list_users(&state).unwrap().into_iter().map(|user| user.name).collect();
    assert_eq!(names, vec!["cat", "ann", "bob"]);
}

#[test]
fn the_catalog_keeps_every_exercise_that_was_added() {
    let mut state = AppState { db: Database::new() };
    assert_eq!(get_exercises(&state), Ok(vec![]));
    let squat =
        Exercise::new("Squat".to_string(), vec![MuscleGroup::Legs], ExerciseCategory::Lower)
            .unwrap();
    let run =
        Exercise::new("Run".to_string(), vec![MuscleGroup::Cardio], ExerciseCategory::Cardio)
            .unwrap();
    assert_eq!(add_excercise(&mut state, squat.clone()), Ok(StatusCode::Success));
    assert_eq!(add_excercise(&mut state, run.clone()), Ok(StatusCode::Success));
    assert_eq!(add_excercise(&mut state, squat.clone()), Ok(StatusCode::Success));
    assert_eq!(get_exercises(&state), Ok(vec![squat.clone(), run, squat]));
    assert_eq!(list_users(&state), Ok(vec![]));
}

#[test]
fn statuses_have_the_numbers_of_http() {
    assert_eq!(StatusCode::Success.as_u16(), 200);
    assert_eq!(StatusCode::Unauthorized.as_u16(), 401);
    assert_eq!(StatusCode::NotFound.as_u16(), 404);
    assert_eq!(StatusCode::InternalServerError.as_u16(), 500);
    assert_eq!(LAST_SETS, 3);
}

#[test]
fn a_failure_of_the_store_is_an_internal_error() {
    assert_eq!(stored(Ok::<u8, StoreError>(7)), Ok(7));
    assert_eq!(stored::<u8>(Err(StoreError::Unavailable)), Err(StatusCode::InternalServerError));
    assert_eq!(stored::<u8>(Err(StoreError::DuplicateKey)), Err(StatusCode::InternalServerError));
    assert_eq!(appended(Err(StoreError::Unavailable)), Err(StatusCode::InternalServerError));
    assert_eq!(sessions_found(Err(StoreError::Unavailable)), Err(StatusCode::InternalServerError));
}

#[test]
fn an_append_is_answered_by_the_number_of_users_matched() {
    assert_eq!(appended(Ok(1)), Ok(StatusCode::Success));
    assert_eq!(appended(Ok(0)), Err(StatusCode::NotFound));
    assert_eq!(appended(Ok(2)), Err(StatusCode::NotFound));
}

#[test]
fn the_sessions_of_a_found_user_are_handed_out() {
    let mut ann = person(Some(1), "ann");
    ann.gym_sessions = vec![workout(2, "b"), workout(1, "a")];
    assert_eq!(sessions_found(Ok(Some(&ann))), Ok(vec![workout(2, "b"), workout(1, "a")]));
    assert_eq!(sessions_found(Ok(None)), Err(StatusCode::NotFound));
}

#[test]
fn copies_hold_what_was_copied() {
    let users = vec![person(Some(1), "ann"), person(None, "bob")];
    assert_eq!(clone_users(&users), users);
    let squat =
        Exercise::new("Squat".to_string(), vec![MuscleGroup::Legs], ExerciseCategory::Lower)
            .unwrap();
    assert_eq!(clone_exercises(&vec![squat.clone()]), vec![squat]);
}

#[test]
fn a_copy_of_the_state_holds_what_the_state_held() {
    let mut state = AppState { db: Database::new() };
    assert!(create_user(&mut state, person(Some(1), "ann")).is_ok());
    let copy = state.clone();
    assert!(add_user_session(&mut state, &"ann".to_string(), workout(1, "later")).is_ok());
    assert_eq!(get_user_sessions(&copy, &"ann".to_string()), Ok(vec![]));
    assert_eq!(list_users(&copy), Ok(vec![person(Some(1), "ann")]));
    assert_eq!(get_user_sessions(&state, &"ann".to_string()), Ok(vec![workout(1, "later")]));
}
