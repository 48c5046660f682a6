//! A sample workout session, for showing what a session document holds.

use crate::date::{CalendarDate, SessionDate};
use crate::models::{
    Exercise, ExerciseCategory, ExerciseLog, ExerciseLogView, ExerciseSet, ExerciseView,
    GymSession, GymSessionView, MuscleGroup, StruggleScore, Weight,
};
use vstd::prelude::*;

verus! {

/// The bits of the double 50.0.
pub const FIFTY: u64 = 0x4049_0000_0000_0000;

/// The set of the sample session: ten easy repetitions with a weight of 50.
pub open spec fn sample_set() -> ExerciseSet {
    ExerciseSet {
        weight: Weight { bits: FIFTY },
        reps: 10,
        struggle_score: Some(StruggleScore::Easy),
    }
}

/// The sample session: on 2021-10-01, two equal sets of the bench press,
/// and a note.
pub open spec fn sample_session() -> GymSessionView {
    GymSessionView {
        date: CalendarDate { year: 2021, month: 10, day: 1 },
        exercises: seq![
            ExerciseLogView {
                exercise: ExerciseView {
                    name: "Bench Press"@,
                    muscle_group: seq![MuscleGroup::UpperChest],
                    category: ExerciseCategory::Upper,
                },
                sets: seq![sample_set(), sample_set()],
            },
        ],
        notes: Some("Good session"@),
    }
}

/// The sample session, as a document.
pub fn show_a_gym_session() -> (session: GymSession)
    ensures
        session@ == sample_session(),
{
    let date = SessionDate::from_ymd_opt(2021, 10, 1).unwrap();
    let mut groups: Vec<MuscleGroup> = Vec::new();
    groups.push(MuscleGroup::UpperChest);
    let exercise = Exercise::new("Bench Press".to_owned(), groups, ExerciseCategory::Upper).unwrap();
    let set = ExerciseSet {
        weight: Weight::from_bits(FIFTY),
        reps: 10,
        struggle_score: Some(StruggleScore::Easy),
    };
    let mut sets: Vec<ExerciseSet> = Vec::new();
    sets.push(set);
    sets.push(set);
    let mut exercises: Vec<ExerciseLog> = Vec::new();
    exercises.push(ExerciseLog { exercise, sets });
    let session = GymSession { date, exercises, notes: Some("Good session".to_owned()) };
    proof {
        assert(groups@ =~= seq![MuscleGroup::UpperChest]);
        assert(sets@ =~= seq![sample_set(), sample_set()]);
        assert(session@.exercises =~= sample_session().exercises);
    }
    session
}

} // verus!
