use gym_tracker::auth::{
    authenticate_found, authorize, authorize_found, create_user_console, create_user_with,
    fresh_user, login, login_with, new_user, Backend, CreateUserError,
};
use gym_tracker::models::{Credentials, User, UserId};
use gym_tracker::password::{
    constant_time_eq, hash_password, salt_block, verify_password, WorkFactor, MAX_COST,
    MAX_PASSWORD_LEN, SALT_LEN, SERVICE_COST,
};
use gym_tracker::session::SessionManager;
use gym_tracker::status::StatusCode;
use gym_tracker::store::{Database, StoreError};
use gym_tracker::token::SessionToken;

fn quick() -> WorkFactor {
    WorkFactor::new(4).unwrap()
}

fn creds(name: &str, password: &str) -> Credentials {
    Credentials { user_name: name.to_string(), password: password.to_string() }
}

fn db_with(name: &str, password: &str) -> Database {
    let mut db = Database::new();
    let made = create_user_with(
        &mut db,
        quick(),
        UserId { bytes: [1; 12] },
        &[7; 16],
        &name.to_string(),
        &password.to_string(),
    );
    assert_eq!(made, Ok(()));
    db
}

#[test]
fn bcrypt_gives_the_digest_of_a_known_password() {
    let salt = [
        0x14, 0x4b, 0x3d, 0x69, 0x1a, 0x7b, 0x4e, 0xcf, 0x39, 0xcf, 0x73, 0x5c, 0x7f, 0xa7, 0xa7,
        0x9c,
    ];
    let expected = [
        0x55, 0x7e, 0x94, 0xf3, 0x4b, 0xf2, 0x86, 0xe8, 0x71, 0x9a, 0x26, 0xbe, 0x94, 0xac, 0x1e,
        0x16, 0xd9, 0x5e, 0xf9, 0xf8, 0x19, 0xde, 0xe0,
    ];
    let digest = hash_password(WorkFactor::new(6).unwrap(), &salt, &"\0".to_string()).unwrap();
    assert_eq!(digest.len(), 24);
    assert_eq!(digest[..23], expected);
}

#[test]
fn bcrypt_gives_the_digest_of_a_second_known_password() {
    let salt = [
        0xa3, 0x61, 0x2d, 0x8c, 0x9a, 0x37, 0xda, 0xc2, 0xf9, 0x9d, 0x94, 0xda, 0x03, 0xbd, 0x45,
        0x21,
    ];
    let expected = [
        0xe6, 0xd5, 0x38, 0x31, 0xf8, 0x20, 0x60, 0xdc, 0x08, 0xa2, 0xe8, 0x48, 0x9c, 0xe8, 0x50,
        0xce, 0x48, 0xfb, 0xf9, 0x76, 0x97, 0x87, 0x38,
    ];
    let digest = hash_password(WorkFactor::new(6).unwrap(), &salt, &"a\0".to_string()).unwrap();
    assert_eq!(digest[..23], expected);
}

#[test]
fn the_digest_depends_on_cost_salt_and_password() {
    let base = hash_password(quick(), &[7; 16], &"secret".to_string()).unwrap();
    assert_eq!(hash_password(quick(), &[7; 16], &"secret".to_string()).unwrap(), base);
    assert_ne!(hash_password(quick(), &[8; 16], &"secret".to_string()).unwrap(), base);
    assert_ne!(hash_password(quick(), &[7; 16], &"Secret".to_string()).unwrap(), base);
    assert_ne!(
        hash_password(WorkFactor::new(5).unwrap(), &[7; 16], &"secret".to_string()).unwrap(),
        base
    );
}

#[test]
fn bcrypt_takes_passwords_of_one_to_seventy_two_bytes() {
    assert_eq!(MAX_PASSWORD_LEN, 72);
    assert!(hash_password(quick(), &[7; 16], &"".to_string()).is_none());
    assert!(hash_password(quick(), &[7; 16], &"x".to_string()).is_some());
    assert!(hash_password(quick(), &[7; 16], &"x".repeat(72)).is_some());
    assert!(hash_password(quick(), &[7; 16], &"x".repeat(73)).is_none());
    // Twenty-four characters of three bytes each are seventy-two bytes.
    assert!(hash_password(quick(), &[7; 16], &"\u{20ac}".repeat(24)).is_some());
    assert!(hash_password(quick(), &[7; 16], &"\u{20ac}".repeat(25)).is_none());
}

#[test]
fn a_work_factor_is_at_most_thirty_one() {
    assert_eq!(MAX_COST, 31);
    assert_eq!(SERVICE_COST, 16);
    assert!(WorkFactor::new(0).is_some());
    assert_eq!(WorkFactor::new(31).unwrap().cost(), 31);
    assert!(WorkFactor::new(32).is_none());
    assert!(WorkFactor::new(u32::MAX).is_none());
    assert_eq!(WorkFactor::service().cost(), 16);
}

#[test]
fn byte_strings_are_equal_when_every_byte_is() {
    assert!(constant_time_eq(&[], &[]));
    assert!(constant_time_eq(&[1, 2, 3], &[1, 2, 3]));
    assert!(!constant_time_eq(&[1, 2, 3], &[1, 2, 4]));
    assert!(!constant_time_eq(&[0, 2, 3], &[1, 2, 3]));
    assert!(!constant_time_eq(&[1, 2, 3], &[1, 2]));
    assert!(!constant_time_eq(&[1, 2], &[1, 2, 3]));
    assert!(!constant_time_eq(&[0x0f], &[0xf0]));
}

#[test]
fn a_salt_has_sixteen_bytes() {
    assert_eq!(SALT_LEN, 16);
    assert_eq!(salt_block(&vec![3; 16]), Some([3; 16]));
    let counted: Vec<u8> = (0..16).collect();
    assert_eq!(salt_block(&counted).unwrap().to_vec(), counted);
    assert_eq!(salt_block(&vec![3; 15]), None);
    assert_eq!(salt_block(&vec![3; 17]), None);
    assert_eq!(salt_block(&vec![]), None);
}

#[test]
fn a_new_user_holds_the_salt_and_the_digest_of_the_password() {
    let id = UserId { bytes: [5; 12] };
    let user = new_user(quick(), id, &[9; 16], &"ann".to_string(), &"secret".to_string()).unwrap();
    assert_eq!(user.id, Some(id));
    assert_eq!(user.name, "ann");
    assert_eq!(user.salt, vec![9; 16]);
    assert_eq!(user.pw_hash, hash_password(quick(), &[9; 16], &"secret".to_string()).unwrap());
    assert!(user.gym_sessions.is_empty());
    assert!(verify_password(quick(), &user, &"secret".to_string()));
    assert!(!verify_password(quick(), &user, &"secrets".to_string()));
    assert!(new_user(quick(), id, &[9; 16], &"ann".to_string(), &"".to_string()).is_none());
}

#[test]
fn a_created_user_authenticates_with_its_password() {
    let db = db_with("ann", "correct horse");
    let backend = Backend { db: &db, factor: quick() };
    let user = backend.authenticate(creds("ann", "correct horse")).unwrap().unwrap();
    assert_eq!(user.name, "ann");
    assert_eq!(user.id, Some(UserId { bytes: [1; 12] }));
    assert_eq!(&user, db.find_user(&"ann".to_string()).unwrap());
}

#[test]
fn a_wrong_password_is_rejected() {
    let db = db_with("ann", "correct horse");
    let backend = Backend { db: &db, factor: quick() };
    assert_eq!(backend.authenticate(creds("ann", "correct horsf")), Ok(None));
    assert_eq!(backend.authenticate(creds("ann", "Correct horse")), Ok(None));
    assert_eq!(backend.authenticate(creds("ann", "correct horse ")), Ok(None));
    assert_eq!(backend.authenticate(creds("ann", "")), Ok(None));
    assert_eq!(backend.authenticate(creds("ann", &"x".repeat(73))), Ok(None));
}

#[test]
fn an_unknown_name_is_rejected_like_a_wrong_password() {
    let db = db_with("ann", "correct horse");
    let backend = Backend { db: &db, factor: quick() };
    let unknown = backend.authenticate(creds("bob", "correct horse"));
    let wrong = backend.authenticate(creds("ann", "battery staple"));
    assert_eq!(unknown, Ok(None));
    assert_eq!(unknown, wrong);
}

#[test]
fn another_work_factor_rejects_the_password() {
    let db = db_with("ann", "correct horse");
    let backend = Backend { db: &db, factor: WorkFactor::new(5).unwrap() };
    assert_eq!(backend.authenticate(creds("ann", "correct horse")), Ok(None));
}

#[test]
fn a_password_repeated_has_the_digest_of_the_password() {
    // bcrypt reads the bytes of a password in a cycle: "ab" and "abab" are
    // the same key.
    let db = db_with("ann", "ab");
    let backend = Backend { db: &db, factor: quick() };
    assert!(backend.authenticate(creds("ann", "abab")).unwrap().is_some());
    assert_eq!(backend.authenticate(creds("ann", "aba")), Ok(None));
}

#[test]
fn a_malformed_salt_rejects_every_password() {
    let good = new_user(
        quick(),
        UserId { bytes: [2; 12] },
        &[9; 16],
        &"ann".to_string(),
        &"secret".to_string(),
    )
    .unwrap();
    for salt in [vec![], vec![9; 15], vec![9; 17]] {
        let broken = User { salt, ..good.clone() };
        assert!(!verify_password(quick(), &broken, &"secret".to_string()));
        let outcome = authenticate_found(quick(), Ok(Some(&broken)), &"secret".to_string());
        assert_eq!(outcome, Ok(None));
    }
    assert!(verify_password(quick(), &good, &"secret".to_string()));
}

#[test]
fn a_failure_of_the_store_is_not_a_rejection() {
    let outcome = authenticate_found(quick(), Err(StoreError::Unavailable), &"secret".to_string());
    assert_eq!(outcome, Err(StoreError::Unavailable));
    assert_eq!(authenticate_found(quick(), Ok(None), &"secret".to_string()), Ok(None));
}

#[test]
fn a_name_is_given_to_one_user_only() {
    let mut db = db_with("ann", "first");
    let again = create_user_with(
        &mut db,
        quick(),
        UserId { bytes: [2; 12] },
        &[8; 16],
        &"ann".to_string(),
        &"second".to_string(),
    );
    assert_eq!(again, Err(CreateUserError::Store(StoreError::DuplicateKey)));
    assert_eq!(db.users().len(), 1);
    let backend = Backend { db: &db, factor: quick() };
    assert!(backend.authenticate(creds("ann", "first")).unwrap().is_some());
    assert_eq!(backend.authenticate(creds("ann", "second")), Ok(None));
}

#[test]
fn an_identifier_is_given_to_one_user_only() {
    let mut db = db_with("ann", "first");
    let again = create_user_with(
        &mut db,
        quick(),
        UserId { bytes: [1; 12] },
        &[8; 16],
        &"bob".to_string(),
        &"second".to_string(),
    );
    assert_eq!(again, Err(CreateUserError::Store(StoreError::DuplicateKey)));
    assert!(db.find_user(&"bob".to_string()).is_none());
}

#[test]
fn a_password_that_bcrypt_does_not_take_creates_no_user() {
    let mut db = Database::new();
    let id = UserId { bytes: [1; 12] };
    let empty = create_user_with(&mut db, quick(), id, &[7; 16], &"ann".to_string(), &"".to_string());
    assert_eq!(empty, Err(CreateUserError::UnusablePassword));
    let long =
        create_user_with(&mut db, quick(), id, &[7; 16], &"ann".to_string(), &"x".repeat(73));
    assert_eq!(long, Err(CreateUserError::UnusablePassword));
    assert!(db.users().is_empty());
    let fits =
        create_user_with(&mut db, quick(), id, &[7; 16], &"ann".to_string(), &"x".repeat(72));
    assert_eq!(fits, Ok(()));
}

#[test]
fn the_console_creates_users_with_fresh_identifiers_and_salts() {
    let mut db = Database::new();
    assert_eq!(create_user_console(&mut db, quick(), &"ann".to_string(), &"one".to_string()), Ok(()));
    assert_eq!(create_user_console(&mut db, quick(), &"bob".to_string(), &"one".to_string()), Ok(()));
    assert_eq!(
        create_user_console(&mut db, quick(), &"ann".to_string(), &"two".to_string()),
        Err(CreateUserError::Store(StoreError::DuplicateKey))
    );
    assert_eq!(
        create_user_console(&mut db, quick(), &"cat".to_string(), &"".to_string()),
        Err(CreateUserError::UnusablePassword)
    );
    let users = db.users();
    assert_eq!(users.len(), 2);
    assert_eq!(users[0].name, "ann");
    assert_eq!(users[1].name, "bob");
    assert_eq!(users[0].salt.len(), 16);
    assert_eq!(users[1].salt.len(), 16);
    assert_ne!(users[0].salt, users[1].salt);
    assert!(users[0].id.is_some());
    assert_ne!(users[0].id, users[1].id);
    assert_ne!(users[0].pw_hash, users[1].pw_hash);
    assert!(users[0].gym_sessions.is_empty());
    let backend = Backend { db: &db, factor: quick() };
    assert!(backend.authenticate(creds("ann", "one")).unwrap().is_some());
    assert!(backend.authenticate(creds("bob", "one")).unwrap().is_some());
    assert_eq!(backend.authenticate(creds("ann", "two")), Ok(None));
}

#[test]
fn the_backend_finds_a_user_by_its_identifier() {
    let db = db_with("ann", "secret");
    let backend = Backend { db: &db, factor: quick() };
    let found = backend.get_user(&UserId { bytes: [1; 12] }).unwrap().unwrap();
    assert_eq!(found.name, "ann");
    assert_eq!(backend.get_user(&UserId { bytes: [2; 12] }), Ok(None));
}

#[test]
fn a_login_with_the_password_opens_a_session() {
    let db = db_with("ann", "secret");
    let backend = Backend { db: &db, factor: quick() };
    let mut sessions = SessionManager::new(3600);
    let token = login(&backend, &mut sessions, creds("ann", "secret"), 1000).unwrap();
    let user = sessions.validate(&token, 1001, &db).unwrap();
    assert_eq!(user.name, "ann");
}

#[test]
fn a_login_with_wrong_credentials_is_unauthorized() {
    let db = db_with("ann", "secret");
    let backend = Backend { db: &db, factor: quick() };
    let mut sessions = SessionManager::new(3600);
    assert_eq!(
        login(&backend, &mut sessions, creds("ann", "guess"), 1000),
        Err(StatusCode::Unauthorized)
    );
    assert_eq!(
        login(&backend, &mut sessions, creds("bob", "secret"), 1000),
        Err(StatusCode::Unauthorized)
    );
}

#[test]
fn a_login_answers_a_failed_store_with_an_internal_error() {
    let mut sessions = SessionManager::new(3600);
    assert_eq!(
        login_with(&mut sessions, Err(StoreError::Unavailable), 1000),
        Err(StatusCode::InternalServerError)
    );
    assert_eq!(login_with(&mut sessions, Ok(None), 1000), Err(StatusCode::Unauthorized));
    let nameless = User {
        id: None,
        name: "ann".to_string(),
        pw_hash: vec![1],
        salt: vec![2; 16],
        gym_sessions: vec![],
    };
    assert_eq!(
        login_with(&mut sessions, Ok(Some(nameless)), 1000),
        Err(StatusCode::InternalServerError)
    );
}

#[test]
fn a_fresh_user_has_an_identifier_a_salt_and_the_digest_of_its_password() {
    let ann = fresh_user(quick(), &"ann".to_string(), &"secret".to_string()).unwrap();
    let bob = fresh_user(quick(), &"bob".to_string(), &"secret".to_string()).unwrap();
    assert_eq!(ann.name, "ann");
    assert!(ann.id.is_some());
    assert_ne!(ann.id, bob.id);
    assert_eq!(ann.salt.len(), 16);
    assert_ne!(ann.salt, bob.salt);
    let salt: [u8; 16] = ann.salt.clone().try_into().unwrap();
    assert_eq!(ann.pw_hash, hash_password(quick(), &salt, &"secret".to_string()).unwrap());
    assert!(verify_password(quick(), &ann, &"secret".to_string()));
    assert!(fresh_user(quick(), &"cat".to_string(), &"".to_string()).is_none());
}

#[test]
fn a_route_is_open_to_a_valid_session_only() {
    let db = db_with("ann", "secret");
    let backend = Backend { db: &db, factor: quick() };
    let mut sessions = SessionManager::new(3600);
    let token = login(&backend, &mut sessions, creds("ann", "secret"), 1000).unwrap();
    let user = authorize(&sessions, Some(&token), 1001, &db).unwrap();
    assert_eq!(user.name, "ann");
    assert_eq!(authorize(&sessions, None, 1001, &db), Err(StatusCode::Unauthorized));
    let stranger = SessionToken { value: token.value ^ 1 };
    assert_eq!(authorize(&sessions, Some(&stranger), 1001, &db), Err(StatusCode::Unauthorized));
    assert_eq!(authorize(&sessions, Some(&token), 4600, &db), Err(StatusCode::Unauthorized));
    sessions.logout(&token);
    assert_eq!(authorize(&sessions, Some(&token), 1001, &db), Err(StatusCode::Unauthorized));
}

#[test]
fn a_route_answers_a_failed_store_with_an_internal_error() {
    let db = db_with("ann", "secret");
    let ann = db.find_user(&"ann".to_string()).unwrap();
    let mut sessions = SessionManager::new(3600);
    let token = sessions.login(ann, 1000).unwrap();
    assert_eq!(
        authorize_found(&sessions, Some(&token), 1001, Err(StoreError::Unavailable)),
        Err(StatusCode::InternalServerError)
    );
    assert_eq!(
        authorize_found(&sessions, None, 1001, Err(StoreError::Unavailable)),
        Err(StatusCode::Unauthorized)
    );
    assert_eq!(authorize_found(&sessions, Some(&token), 1001, Ok(Some(ann))), Ok(ann.clone()));
    assert_eq!(
        authorize_found(&sessions, Some(&token), 1001, Ok(None)),
        Err(StatusCode::Unauthorized)
    );
}

#[test]
fn a_free_name_is_created_where_no_identifier_is_in_use() {
    let mut db = Database::new();
    let nameless = User {
        id: None,
        name: "old".to_string(),
        pw_hash: vec![1],
        salt: vec![2; 16],
        gym_sessions: vec![],
    };
    assert_eq!(db.insert_user(nameless), Ok(()));
    assert_eq!(create_user_console(&mut db, quick(), &"ann".to_string(), &"one".to_string()), Ok(()));
    let ann = db.find_user(&"ann".to_string()).unwrap();
    assert_eq!(ann.salt.len(), 16);
    let salt: [u8; 16] = ann.salt.clone().try_into().unwrap();
    assert_eq!(ann.pw_hash, hash_password(quick(), &salt, &"one".to_string()).unwrap());
    assert_ne!(ann.pw_hash, "one".as_bytes());
    assert_eq!(db.users().len(), 2);
}

#[test]
fn the_first_login_of_a_manager_opens_a_session() {
    let db = db_with("ann", "secret");
    let ann = db.find_user(&"ann".to_string()).unwrap().clone();
    let mut sessions = SessionManager::new(3600);
    let token = login_with(&mut sessions, Ok(Some(ann.clone())), 1000).unwrap();
    assert_eq!(sessions.validate(&token, 1001, &db), Some(ann));
}
