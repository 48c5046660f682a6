//! The nested document model: users, their workout sessions, the exercises
//! logged in a session and the sets of each exercise.
//!
//! Every type has a view, its mathematical model: strings become sequences
//! of characters, vectors become sequences, and a nested document becomes a
//! nested view.

use crate::date::{CalendarDate, SessionDate};
use vstd::prelude::*;

verus! {

/// The muscle groups an exercise can train.
#[derive(Debug, Clone, Copy, PartialEq, Eq, Structural)]
pub enum MuscleGroup {
    Chest,
    UpperChest,
    Back,
    Legs,
    Shoulders,
    Arms,
    Core,
    FullBody,
    Cardio,
}

/// The category of an exercise.
#[derive(Debug, Clone, Copy, PartialEq, Eq, Structural)]
pub enum ExerciseCategory {
    Upper,
    Lower,
    Push,
    Pull,
    Cardio,
    Other,
}

/// How hard a set felt, from `Easy` up to `VeryHard`.
#[derive(Debug, Clone, Copy, PartialEq, Eq, PartialOrd, Ord, Structural)]
pub enum StruggleScore {
    Easy,
    Moderate,
    Hard,
    VeryHard,
}

impl StruggleScore {
    /// The place of a score in the order Easy < Moderate < Hard < VeryHard.
    pub open spec fn level(self) -> int {
        match self {
            StruggleScore::Easy => 0,
            StruggleScore::Moderate => 1,
            StruggleScore::Hard => 2,
            StruggleScore::VeryHard => 3,
        }
    }

    /// The level of the score as a number from 0 to 3.
    pub fn rank(&self) -> (r: u8)
        ensures
            r == self.level(),
    {
        match self {
            StruggleScore::Easy => 0,
            StruggleScore::Moderate => 1,
            StruggleScore::Hard => 2,
            StruggleScore::VeryHard => 3,
        }
    }

    /// Whether `self` is a strictly harder score than `other`.
    pub fn is_harder_than(&self, other: &StruggleScore) -> (harder: bool)
        ensures
            harder == (self.level() > other.level()),
    {
        self.rank() > other.rank()
    }
}

/// The weight moved in a set. The library never computes with a weight: it
/// carries the bit pattern of the caller's IEEE-754 double unchanged.
#[derive(Debug, Clone, Copy, PartialEq, Eq)]
pub struct Weight {
    pub bits: u64,
}

impl Weight {
    pub fn from_bits(bits: u64) -> (weight: Weight)
        ensures
            weight.bits == bits,
    {
        Weight { bits }
    }

    pub fn to_bits(&self) -> (bits: u64)
        ensures
            bits == self.bits,
    {
        self.bits
    }
}

/// One set of an exercise: the weight, the repetitions and, where the
/// athlete gave one, how hard it felt.
#[derive(Debug, Clone, Copy, PartialEq, Eq)]
pub struct ExerciseSet {
    pub weight: Weight,
    pub reps: u32,
    pub struggle_score: Option<StruggleScore>,
}

/// The view of an [`Exercise`].
pub struct ExerciseView {
    pub name: Seq<char>,
    pub muscle_group: Seq<MuscleGroup>,
    pub category: ExerciseCategory,
}

/// An exercise: its name, the muscle groups it trains (at least one) and
/// its category.
#[derive(Debug, PartialEq, Eq)]
pub struct Exercise {
    name: String,
    muscle_group: Vec<MuscleGroup>,
    category: ExerciseCategory,
}

impl View for Exercise {
    type V = ExerciseView;

    closed spec fn view(&self) -> ExerciseView {
        ExerciseView {
            name: self.name@,
            muscle_group: self.muscle_group@,
            category: self.category,
        }
    }
}

/// A copy of a vector of plain values.
pub fn copy_vec<T: Copy>(items: &Vec<T>) -> (copy: Vec<T>)
    ensures
        copy@ == items@,
{
    let mut copy: Vec<T> = Vec::new();
    let mut i: usize = 0;
    while i < items.len()
        invariant
            i <= items.len(),
            copy@ == items@.take(i as int),
        decreases items.len() - i,
    {
        copy.push(items[i]);
        i += 1;
        assert(items@.take(i as int) == items@.take(i - 1).push(items@[i - 1]));
    }
    assert(items@.take(items.len() as int) == items@);
    copy
}

impl Exercise {
    #[verifier::type_invariant]
    spec fn trains_a_muscle_group(self) -> bool {
        self.muscle_group@.len() >= 1
    }

    /// The exercise with the given name, muscle groups and category, or
    /// `None` where no muscle group is given.
    pub fn new(name: String, muscle_group: Vec<MuscleGroup>, category: ExerciseCategory) -> (exercise:
        Option<Exercise>)
        ensures
            exercise is Some <==> muscle_group@.len() >= 1,
            exercise matches Some(e) ==> e@ == (ExerciseView {
                name: name@,
                muscle_group: muscle_group@,
                category,
            }),
    {
        if muscle_group.len() >= 1 {
            Some(Exercise { name, muscle_group, category })
        } else {
            None
        }
    }

    pub fn name(&self) -> (name: &String)
        ensures
            name@ == self@.name,
    {
        &self.name
    }

    /// The muscle groups of the exercise, of which there is at least one.
    pub fn muscle_group(&self) -> (groups: &Vec<MuscleGroup>)
        ensures
            groups@ == self@.muscle_group,
            groups@.len() >= 1,
    {
        proof {
            use_type_invariant(self);
        }
        &self.muscle_group
    }

    pub fn category(&self) -> (category: ExerciseCategory)
        ensures
            category == self@.category,
    {
        self.category
    }
}

impl Clone for Exercise {
    fn clone(&self) -> (copy: Exercise)
        ensures
            copy@ == self@,
    {
        proof {
            use_type_invariant(self);
        }
        Exercise {
            name: self.name.clone(),
            muscle_group: copy_vec(&self.muscle_group),
            category: self.category,
        }
    }
}

/// The view of an [`ExerciseLog`].
pub struct ExerciseLogView {
    pub exercise: ExerciseView,
    pub sets: Seq<ExerciseSet>,
}

/// The sets done of one exercise within a workout session.
#[derive(Debug, PartialEq, Eq)]
pub struct ExerciseLog {
    pub exercise: Exercise,
    pub sets: Vec<ExerciseSet>,
}

impl View for ExerciseLog {
    type V = ExerciseLogView;

    open spec fn view(&self) -> ExerciseLogView {
        ExerciseLogView { exercise: self.exercise@, sets: self.sets@ }
    }
}

impl Clone for ExerciseLog {
    fn clone(&self) -> (copy: ExerciseLog)
        ensures
            copy@ == self@,
    {
        ExerciseLog { exercise: self.exercise.clone(), sets: copy_vec(&self.sets) }
    }
}

/// The views of a sequence of exercise logs.
pub open spec fn logs_view(logs: Seq<ExerciseLog>) -> Seq<ExerciseLogView> {
    logs.map_values(|log: ExerciseLog| log@)
}

/// A copy of a vector of exercise logs.
pub fn clone_logs(logs: &Vec<ExerciseLog>) -> (copy: Vec<ExerciseLog>)
    ensures
        logs_view(copy@) == logs_view(logs@),
{
    let mut copy: Vec<ExerciseLog> = Vec::new();
    let mut i: usize = 0;
    while i < logs.len()
        invariant
            i <= logs.len(),
            copy@.len() == i,
            forall|k: int| 0 <= k < i ==> (#[trigger] copy@[k])@ == logs@[k]@,
        decreases logs.len() - i,
    {
        copy.push(logs[i].clone());
        i += 1;
    }
    assert(logs_view(copy@) =~= logs_view(logs@));
    copy
}

/// The view of a [`GymSession`].
pub struct GymSessionView {
    pub date: CalendarDate,
    pub exercises: Seq<ExerciseLogView>,
    pub notes: Option<Seq<char>>,
}

/// One workout: its date, the exercises logged in it, in the order in which
/// they were logged, and free-text notes where the athlete wrote any.
#[derive(Debug, PartialEq, Eq)]
pub struct GymSession {
    pub date: SessionDate,
    pub exercises: Vec<ExerciseLog>,
    pub notes: Option<String>,
}

impl View for GymSession {
    type V = GymSessionView;

    open spec fn view(&self) -> GymSessionView {
        GymSessionView {
            date: self.date@,
            exercises: logs_view(self.exercises@),
            notes: match self.notes {
                Some(text) => Some(text@),
                None => None,
            },
        }
    }
}

impl Clone for GymSession {
    fn clone(&self) -> (copy: GymSession)
        ensures
            copy@ == self@,
    {
        let notes = match &self.notes {
            Some(text) => Some(text.clone()),
            None => None,
        };
        GymSession { date: self.date, exercises: clone_logs(&self.exercises), notes }
    }
}

/// The views of a sequence of workout sessions.
pub open spec fn sessions_view(sessions: Seq<GymSession>) -> Seq<GymSessionView> {
    sessions.map_values(|session: GymSession| session@)
}

/// A copy of a vector of workout sessions.
pub fn clone_sessions(sessions: &Vec<GymSession>) -> (copy: Vec<GymSession>)
    ensures
        sessions_view(copy@) == sessions_view(sessions@),
{
    let mut copy: Vec<GymSession> = Vec::new();
    let mut i: usize = 0;
    while i < sessions.len()
        invariant
            i <= sessions.len(),
            copy@.len() == i,
            forall|k: int| 0 <= k < i ==> (#[trigger] copy@[k])@ == sessions@[k]@,
        decreases sessions.len() - i,
    {
        copy.push(sessions[i].clone());
        i += 1;
    }
    assert(sessions_view(copy@) =~= sessions_view(sessions@));
    copy
}

/// The identifier of a user: twelve opaque bytes, given once when the user
/// is created.
#[derive(Debug, Clone, Copy, PartialEq, Eq)]
pub struct UserId {
    pub bytes: [u8; 12],
}

impl View for UserId {
    type V = Seq<u8>;

    open spec fn view(&self) -> Seq<u8> {
        self.bytes@
    }
}

impl UserId {
    /// Whether two identifiers hold the same bytes.
    pub fn same_as(&self, other: &UserId) -> (same: bool)
        ensures
            same == (self@ == other@),
    {
        let mut i: usize = 0;
        while i < 12
            invariant
                i <= 12,
                forall|k: int| 0 <= k < i ==> self.bytes@[k] == other.bytes@[k],
            decreases 12 - i,
        {
            if self.bytes[i] != other.bytes[i] {
                return false;
            }
            i += 1;
        }
        assert(self@ =~= other@);
        true
    }
}

/// The view of a [`User`].
pub struct UserView {
    pub id: Option<Seq<u8>>,
    pub name: Seq<char>,
    pub pw_hash: Seq<u8>,
    pub salt: Seq<u8>,
    pub gym_sessions: Seq<GymSessionView>,
}

/// A user document: the identity, the password material and the workout
/// history, in the order in which the sessions were added.
#[derive(Debug, PartialEq, Eq)]
pub struct User {
    pub id: Option<UserId>,
    pub name: String,
    pub pw_hash: Vec<u8>,
    pub salt: Vec<u8>,
    pub gym_sessions: Vec<GymSession>,
}

impl View for User {
    type V = UserView;

    open spec fn view(&self) -> UserView {
        UserView {
            id: match self.id {
                Some(id) => Some(id@),
                None => None,
            },
            name: self.name@,
            pw_hash: self.pw_hash@,
            salt: self.salt@,
            gym_sessions: sessions_view(self.gym_sessions@),
        }
    }
}

impl Clone for User {
    fn clone(&self) -> (copy: User)
        ensures
            copy@ == self@,
    {
        User {
            id: self.id,
            name: self.name.clone(),
            pw_hash: copy_vec(&self.pw_hash),
            salt: copy_vec(&self.salt),
            gym_sessions: clone_sessions(&self.gym_sessions),
        }
    }
}

impl User {
    /// The identifier of a user that has one.
    pub fn id(&self) -> (id: UserId)
        requires
            self.id is Some,
        ensures
            Some(id) == self.id,
    {
        self.id.unwrap()
    }

    /// The bytes to which a session of this user is bound: the password
    /// hash. A session made under one hash does not outlive it.
    pub fn session_auth_hash(&self) -> (hash: &[u8])
        ensures
            hash@ == self.pw_hash@,
    {
        self.pw_hash.as_slice()
    }
}

/// A name and a plaintext password, held for one authentication attempt.
#[derive(Debug, PartialEq, Eq)]
pub struct Credentials {
    pub user_name: String,
    pub password: String,
}

impl Clone for Credentials {
    fn clone(&self) -> (copy: Credentials)
        ensures
            copy.user_name@ == self.user_name@,
            copy.password@ == self.password@,
    {
        Credentials { user_name: self.user_name.clone(), password: self.password.clone() }
    }
}

} // verus!
