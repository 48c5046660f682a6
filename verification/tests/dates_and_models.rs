use gym_tracker::date::SessionDate;
use gym_tracker::models::{
    Credentials, Exercise, ExerciseCategory, ExerciseSet, MuscleGroup, StruggleScore, User,
    UserId, Weight,
};
use gym_tracker::sample::show_a_gym_session;

#[test]
fn a_date_is_made_of_a_day_that_exists() {
    let date = SessionDate::from_ymd_opt(2015, 3, 14).unwrap();
    assert_eq!((date.year(), date.month(), date.day()), (2015, 3, 14));
    assert!(SessionDate::from_ymd_opt(2024, 2, 29).is_some());
    assert!(SessionDate::from_ymd_opt(2000, 2, 29).is_some());
    assert!(SessionDate::from_ymd_opt(-4, 2, 29).is_some());
    assert!(SessionDate::from_ymd_opt(2023, 12, 31).is_some());
}

#[test]
fn a_day_that_does_not_exist_makes_no_date() {
    assert!(SessionDate::from_ymd_opt(2023, 4, 31).is_none());
    assert!(SessionDate::from_ymd_opt(2015, 2, 29).is_none());
    assert!(SessionDate::from_ymd_opt(1900, 2, 29).is_none());
    assert!(SessionDate::from_ymd_opt(2015, 0, 14).is_none());
    assert!(SessionDate::from_ymd_opt(2015, 13, 14).is_none());
    assert!(SessionDate::from_ymd_opt(2015, 1, 0).is_none());
    assert!(SessionDate::from_ymd_opt(2015, 1, 32).is_none());
}

#[test]
fn the_years_of_a_date_have_bounds() {
    assert!(SessionDate::from_ymd_opt(262142, 12, 31).is_some());
    assert!(SessionDate::from_ymd_opt(262143, 1, 1).is_none());
    assert!(SessionDate::from_ymd_opt(-262143, 1, 1).is_some());
    assert!(SessionDate::from_ymd_opt(-262144, 12, 31).is_none());
    assert!(SessionDate::from_ymd_opt(400000, 1, 1).is_none());
    assert!(SessionDate::from_ymd_opt(-400000, 1, 1).is_none());
}

#[test]
fn later_dates_are_after_earlier_ones() {
    let new_year = SessionDate::from_ymd_opt(2024, 1, 1).unwrap();
    let eve = SessionDate::from_ymd_opt(2023, 12, 31).unwrap();
    let march = SessionDate::from_ymd_opt(2024, 3, 1).unwrap();
    let february = SessionDate::from_ymd_opt(2024, 2, 28).unwrap();
    assert!(new_year.is_after(&eve));
    assert!(!eve.is_after(&new_year));
    assert!(march.is_after(&february));
    assert!(!february.is_after(&march));
    assert!(!march.is_after(&march));
    let days = [eve, new_year, february, march, SessionDate::from_ymd_opt(-1, 6, 15).unwrap()];
    for left in days {
        for right in days {
            assert_eq!(left > right, left.is_after(&right));
        }
    }
}

#[test]
fn an_exercise_trains_at_least_one_muscle_group() {
    assert!(Exercise::new("Plank".to_string(), vec![], ExerciseCategory::Other).is_none());
    let press = Exercise::new(
        "Overhead Press".to_string(),
        vec![MuscleGroup::Shoulders, MuscleGroup::Arms],
        ExerciseCategory::Push,
    )
    .unwrap();
    assert_eq!(press.name(), "Overhead Press");
    assert_eq!(press.muscle_group(), &vec![MuscleGroup::Shoulders, MuscleGroup::Arms]);
    assert_eq!(press.category(), ExerciseCategory::Push);
    assert_eq!(press.clone(), press);
}

#[test]
fn struggle_scores_are_ordered() {
    assert_eq!(StruggleScore::Easy.rank(), 0);
    assert_eq!(StruggleScore::Moderate.rank(), 1);
    assert_eq!(StruggleScore::Hard.rank(), 2);
    assert_eq!(StruggleScore::VeryHard.rank(), 3);
    assert!(StruggleScore::VeryHard.is_harder_than(&StruggleScore::Hard));
    assert!(StruggleScore::Moderate.is_harder_than(&StruggleScore::Easy));
    assert!(!StruggleScore::Easy.is_harder_than(&StruggleScore::Easy));
    assert!(!StruggleScore::Hard.is_harder_than(&StruggleScore::VeryHard));
    let scores =
        [StruggleScore::Easy, StruggleScore::Moderate, StruggleScore::Hard, StruggleScore::VeryHard];
    for left in scores {
        for right in scores {
            assert_eq!(left > right, left.is_harder_than(&right));
            assert_eq!(left.cmp(&right), left.rank().cmp(&right.rank()));
        }
    }
}

#[test]
fn a_weight_keeps_the_bits_of_its_double() {
    for value in [0.0f64, -0.0, 50.0, 102.75, 0.1, f64::MAX, f64::MIN_POSITIVE] {
        let weight = Weight::from_bits(value.to_bits());
        assert_eq!(weight.to_bits(), value.to_bits());
        assert_eq!(f64::from_bits(weight.to_bits()), value);
    }
}

#[test]
fn the_sample_session_is_the_bench_press_of_october_first() {
    let session = show_a_gym_session();
    assert_eq!(session.date, SessionDate::from_ymd_opt(2021, 10, 1).unwrap());
    assert_eq!(session.notes, Some("Good session".to_string()));
    assert_eq!(session.exercises.len(), 1);
    let log = &session.exercises[0];
    assert_eq!(log.exercise.name(), "Bench Press");
    assert_eq!(log.exercise.muscle_group(), &vec![MuscleGroup::UpperChest]);
    assert_eq!(log.exercise.category(), ExerciseCategory::Upper);
    let set = ExerciseSet {
        weight: Weight::from_bits(50.0f64.to_bits()),
        reps: 10,
        struggle_score: Some(StruggleScore::Easy),
    };
    assert_eq!(log.sets, vec![set, set]);
    assert_eq!(session.clone(), session);
}

#[test]
fn a_user_hands_out_its_identifier_and_its_session_hash() {
    let user = User {
        id: Some(UserId { bytes: [9; 12] }),
        name: "ann".to_string(),
        pw_hash: vec![1, 2, 3],
        salt: vec![4; 16],
        gym_sessions: vec![],
    };
    assert_eq!(user.id(), UserId { bytes: [9; 12] });
    assert_eq!(user.session_auth_hash(), &[1u8, 2, 3][..]);
    assert_eq!(user.clone(), user);
}

#[test]
fn identifiers_are_compared_byte_by_byte() {
    let one = UserId { bytes: [1, 2, 3, 4, 5, 6, 7, 8, 9, 10, 11, 12] };
    let same = UserId { bytes: [1, 2, 3, 4, 5, 6, 7, 8, 9, 10, 11, 12] };
    let other = UserId { bytes: [1, 2, 3, 4, 5, 6, 7, 8, 9, 10, 11, 13] };
    assert!(one.same_as(&same));
    assert!(!one.same_as(&other));
}

#[test]
fn credentials_are_copied_field_by_field() {
    let creds = Credentials { user_name: "ann".to_string(), password: "secret".to_string() };
    assert_eq!(creds.clone(), creds);
}
