//! The last sets of an exercise.
//!
//! The query walks a user's workout history, keeps the sets of the exercise
//! asked for, orders them by the date of their session, most recent first,
//! and returns the first `n`. Sets of the same date keep the order in which
//! they were logged.

use crate::date::{CalendarDate, SessionDate};
use crate::models::{ExerciseLogView, ExerciseSet, GymSession, GymSessionView, User, UserView};
use vstd::prelude::*;

verus! {

/// A set together with the date of the session in which it was done.
pub struct DatedSet {
    pub date: CalendarDate,
    pub set: ExerciseSet,
}

/// The given sets, each tagged with `date`.
pub open spec fn dated(date: CalendarDate, sets: Seq<ExerciseSet>) -> Seq<DatedSet> {
    sets.map_values(|set: ExerciseSet| DatedSet { date, set })
}

/// The sets that the logs of one session hold for `exercise`, in the order
/// in which they were logged. A log counts when its exercise has exactly
/// that name.
pub open spec fn sets_in_logs(
    date: CalendarDate,
    logs: Seq<ExerciseLogView>,
    exercise: Seq<char>,
) -> Seq<DatedSet>
    decreases logs.len(),
{
    if logs.len() == 0 {
        Seq::empty()
    } else {
        let earlier = sets_in_logs(date, logs.drop_last(), exercise);
        if logs.last().exercise.name == exercise {
            earlier + dated(date, logs.last().sets)
        } else {
            earlier
        }
    }
}

/// The sets that a workout history holds for `exercise`, in the order in
/// which they were added to it.
pub open spec fn sets_in_sessions(sessions: Seq<GymSessionView>, exercise: Seq<char>) -> Seq<
    DatedSet,
>
    decreases sessions.len(),
{
    if sessions.len() == 0 {
        Seq::empty()
    } else {
        sets_in_sessions(sessions.drop_last(), exercise) + sets_in_logs(
            sessions.last().date,
            sessions.last().exercises,
            exercise,
        )
    }
}

/// How many sets at the head of `ranked` are not older than `date`: the
/// place at which a set of that date joins a ranking.
pub open spec fn slot(ranked: Seq<DatedSet>, date: CalendarDate) -> int
    decreases ranked.len(),
{
    if ranked.len() == 0 || date.is_after(ranked[0].date) {
        0
    } else {
        1 + slot(ranked.drop_first(), date)
    }
}

/// `ranked` with `item` put behind the sets that are not older than it.
pub open spec fn place(ranked: Seq<DatedSet>, item: DatedSet) -> Seq<DatedSet> {
    ranked.insert(slot(ranked, item.date), item)
}

/// The sets ordered by date, most recent first; sets of one date stay in
/// the order in which `sets` holds them.
pub open spec fn most_recent_first(sets: Seq<DatedSet>) -> Seq<DatedSet>
    decreases sets.len(),
{
    if sets.len() == 0 {
        Seq::empty()
    } else {
        place(most_recent_first(sets.drop_last()), sets.last())
    }
}

/// The smaller of a count asked for and a count at hand.
pub open spec fn at_most(n: nat, available: nat) -> int {
    if n <= available {
        n as int
    } else {
        available as int
    }
}

/// The first `n` of the sets ordered most recent first, or all of them
/// where there are fewer.
pub open spec fn most_recent(sets: Seq<DatedSet>, n: nat) -> Seq<DatedSet> {
    most_recent_first(sets).take(at_most(n, most_recent_first(sets).len()))
}

/// What [`last_n_sets`] returns: the `n` most recent sets that the user
/// logged for `exercise`, without their dates.
pub open spec fn last_n_sets_of(user: UserView, exercise: Seq<char>, n: nat) -> Seq<ExerciseSet> {
    most_recent(sets_in_sessions(user.gym_sessions, exercise), n).map_values(
        |item: DatedSet| item.set,
    )
}

/// One step of the query's window: the item joins the ranking and the
/// window keeps at most `n` sets.
spec fn window_step(window: Seq<DatedSet>, item: DatedSet, n: nat) -> Seq<DatedSet> {
    place(window, item).take(at_most(n, window.len() + 1))
}

proof fn lemma_slot_bounds(ranked: Seq<DatedSet>, date: CalendarDate)
    ensures
        0 <= slot(ranked, date) <= ranked.len(),
    decreases ranked.len(),
{
    if ranked.len() == 0 || date.is_after(ranked[0].date) {
    } else {
        lemma_slot_bounds(ranked.drop_first(), date);
    }
}

/// The slot is the first place whose set is older than `date`.
proof fn lemma_slot_is(ranked: Seq<DatedSet>, date: CalendarDate, k: int)
    requires
        0 <= k <= ranked.len(),
        forall|j: int| 0 <= j < k ==> !date.is_after(#[trigger] ranked[j].date),
        k < ranked.len() ==> date.is_after(ranked[k].date),
    ensures
        slot(ranked, date) == k,
    decreases ranked.len(),
{
    if ranked.len() == 0 {
    } else if k == 0 {
    } else {
        assert(!date.is_after(ranked[0].date));
        let rest = ranked.drop_first();
        assert forall|j: int| 0 <= j < k - 1 implies !date.is_after(#[trigger] rest[j].date) by {
            assert(rest[j] == ranked[j + 1]);
        }
        if k - 1 < rest.len() {
            assert(rest[k - 1] == ranked[k]);
        }
        lemma_slot_is(rest, date, k - 1);
    }
}

/// What the slot says of the sets before and at it.
proof fn lemma_slot_splits(ranked: Seq<DatedSet>, date: CalendarDate)
    ensures
        0 <= slot(ranked, date) <= ranked.len(),
        forall|j: int| 0 <= j < slot(ranked, date) ==> !date.is_after(#[trigger] ranked[j].date),
        slot(ranked, date) < ranked.len() ==> date.is_after(ranked[slot(ranked, date)].date),
    decreases ranked.len(),
{
    if ranked.len() == 0 || date.is_after(ranked[0].date) {
    } else {
        let rest = ranked.drop_first();
        lemma_slot_splits(rest, date);
        let k = slot(rest, date);
        assert forall|j: int| 0 <= j < k + 1 implies !date.is_after(#[trigger] ranked[j].date) by {
            if j > 0 {
                assert(ranked[j] == rest[j - 1]);
            }
        }
        if k + 1 < ranked.len() {
            assert(ranked[k + 1] == rest[k]);
        }
    }
}

/// The slot in the head of a ranking is the slot in the ranking, cut at the
/// length of the head.
proof fn lemma_slot_of_head(ranked: Seq<DatedSet>, date: CalendarDate, m: int)
    requires
        0 <= m <= ranked.len(),
    ensures
        slot(ranked.take(m), date) == if slot(ranked, date) <= m {
            slot(ranked, date)
        } else {
            m
        },
{
    lemma_slot_splits(ranked, date);
    let k = slot(ranked, date);
    let head = ranked.take(m);
    let cut = if k <= m {
        k
    } else {
        m
    };
    assert forall|j: int| 0 <= j < cut implies !date.is_after(#[trigger] head[j].date) by {
        assert(head[j] == ranked[j]);
    }
    if cut < head.len() {
        assert(head[cut] == ranked[cut]);
    }
    lemma_slot_is(head, date, cut);
}

proof fn lemma_most_recent_first_len(sets: Seq<DatedSet>)
    ensures
        most_recent_first(sets).len() == sets.len(),
    decreases sets.len(),
{
    if sets.len() > 0 {
        lemma_most_recent_first_len(sets.drop_last());
        lemma_slot_bounds(most_recent_first(sets.drop_last()), sets.last().date);
    }
}

/// Adding a set to the history moves the window of the `n` most recent sets
/// by one step.
proof fn lemma_most_recent_push(sets: Seq<DatedSet>, item: DatedSet, n: nat)
    ensures
        most_recent(sets.push(item), n) == window_step(most_recent(sets, n), item, n),
{
    let ranked = most_recent_first(sets);
    let longer = sets.push(item);
    assert(longer.drop_last() == sets);
    assert(longer.last() == item);
    assert(most_recent_first(longer) == place(ranked, item));
    lemma_most_recent_first_len(sets);
    lemma_most_recent_first_len(longer);
    let m = at_most(n, ranked.len());
    let window = ranked.take(m);
    lemma_slot_of_head(ranked, item.date, m);
    lemma_slot_splits(ranked, item.date);
    assert(window_step(window, item, n) =~= place(ranked, item).take(
        at_most(n, ranked.len() + 1),
    ));
}

/// Whether a ranking never puts a set before a more recent one.
pub open spec fn is_most_recent_first(ranked: Seq<DatedSet>) -> bool {
    forall|i: int, j: int|
        0 <= i < j < ranked.len() ==> !(#[trigger] ranked[j]).date.is_after(
            (#[trigger] ranked[i]).date,
        )
}

/// The sets done on `date`.
pub open spec fn done_on(date: CalendarDate) -> spec_fn(DatedSet) -> bool {
    |item: DatedSet| item.date == date
}

proof fn lemma_place_is_ordered(ranked: Seq<DatedSet>, item: DatedSet)
    requires
        is_most_recent_first(ranked),
    ensures
        is_most_recent_first(place(ranked, item)),
{
    lemma_slot_splits(ranked, item.date);
    let k = slot(ranked, item.date);
    let placed = place(ranked, item);
    assert forall|i: int, j: int| 0 <= i < j < placed.len() implies !(#[trigger] placed[j]).date.is_after(
        (#[trigger] placed[i]).date,
    ) by {
        if j < k {
            assert(placed[i] == ranked[i] && placed[j] == ranked[j]);
        } else if j == k {
            assert(placed[i] == ranked[i]);
        } else if i < k {
            assert(placed[i] == ranked[i] && placed[j] == ranked[j - 1]);
            if j - 1 > k {
                assert(!ranked[j - 1].date.is_after(ranked[k].date));
            }
        } else if i == k {
            assert(placed[j] == ranked[j - 1]);
            if j - 1 > k {
                assert(!ranked[j - 1].date.is_after(ranked[k].date));
            }
        } else {
            assert(placed[i] == ranked[i - 1] && placed[j] == ranked[j - 1]);
        }
    }
}

/// The ranking is ordered by date: no set stands before a more recent one.
pub proof fn law_most_recent_first_is_ordered(sets: Seq<DatedSet>)
    ensures
        is_most_recent_first(most_recent_first(sets)),
    decreases sets.len(),
{
    if sets.len() > 0 {
        law_most_recent_first_is_ordered(sets.drop_last());
        lemma_place_is_ordered(most_recent_first(sets.drop_last()), sets.last());
    }
}

/// The ranking holds the sets it was given, each as often as it was given:
/// none is lost, none is added.
pub proof fn law_most_recent_first_keeps_the_sets(sets: Seq<DatedSet>)
    ensures
        most_recent_first(sets).to_multiset() == sets.to_multiset(),
        most_recent_first(sets).len() == sets.len(),
    decreases sets.len(),
{
    lemma_most_recent_first_len(sets);
    if sets.len() == 0 {
        assert(most_recent_first(sets) =~= sets);
    } else {
        let earlier = sets.drop_last();
        law_most_recent_first_keeps_the_sets(earlier);
        lemma_slot_bounds(most_recent_first(earlier), sets.last().date);
        vstd::seq_lib::to_multiset_insert(
            most_recent_first(earlier),
            slot(most_recent_first(earlier), sets.last().date),
            sets.last(),
        );
        vstd::seq_lib::to_multiset_build(earlier, sets.last());
        assert(earlier.push(sets.last()) == sets);
    }
}

proof fn lemma_place_keeps_date_order(ranked: Seq<DatedSet>, item: DatedSet, date: CalendarDate)
    requires
        is_most_recent_first(ranked),
    ensures
        place(ranked, item).filter(done_on(date)) == if item.date == date {
            ranked.filter(done_on(date)).push(item)
        } else {
            ranked.filter(done_on(date))
        },
{
    lemma_slot_splits(ranked, item.date);
    let k = slot(ranked, item.date);
    let on = done_on(date);
    let head = ranked.take(k);
    let tail = ranked.skip(k);
    assert(ranked =~= head + tail);
    assert(place(ranked, item) =~= head.push(item) + tail);
    Seq::filter_distributes_over_add(head, tail, on);
    Seq::filter_distributes_over_add(head.push(item), tail, on);
    head.lemma_filter_push(item, on);
    if item.date == date {
        assert forall|i: int| 0 <= i < tail.len() implies !on(#[trigger] tail[i]) by {
            assert(tail[i] == ranked[k + i]);
            if i > 0 {
                assert(!ranked[k + i].date.is_after(ranked[k].date));
            }
        }
        assert(tail.all(|x: DatedSet| !on(x)));
        tail.lemma_all_neg_filter_empty(on);
        assert(tail.filter(on) =~= Seq::<DatedSet>::empty());
        assert(head.filter(on) + tail.filter(on) =~= head.filter(on));
        assert(head.filter(on).push(item) + tail.filter(on) =~= head.filter(on).push(item));
    }
}

/// The ranking is stable: the sets of any one date stand in it in the order
/// in which they were logged.
pub proof fn law_same_date_keeps_logging_order(sets: Seq<DatedSet>, date: CalendarDate)
    ensures
        most_recent_first(sets).filter(done_on(date)) == sets.filter(done_on(date)),
    decreases sets.len(),
{
    if sets.len() == 0 {
        assert(most_recent_first(sets) =~= sets);
    } else {
        let earlier = sets.drop_last();
        law_same_date_keeps_logging_order(earlier, date);
        law_most_recent_first_is_ordered(earlier);
        lemma_place_keeps_date_order(most_recent_first(earlier), sets.last(), date);
        earlier.lemma_filter_push(sets.last(), done_on(date));
        assert(earlier.push(sets.last()) == sets);
    }
}

/// The last set of an order that is most recent first is the last set of
/// its date, and no set of the order is older.
proof fn lemma_last_of_ordered(ranked: Seq<DatedSet>)
    requires
        ranked.len() > 0,
        is_most_recent_first(ranked),
    ensures
        ranked.filter(done_on(ranked.last().date)).len() > 0,
        ranked.filter(done_on(ranked.last().date)).last() == ranked.last(),
        is_most_recent_first(ranked.drop_last()),
        forall|i: int| 0 <= i < ranked.len() ==> !ranked.last().date.is_after(#[trigger] ranked[i].date),
{
    let last = ranked.last();
    let rest = ranked.drop_last();
    assert(rest.push(last) == ranked);
    rest.lemma_filter_push(last, done_on(last.date));
    assert forall|i: int, j: int| 0 <= i < j < rest.len() implies !(#[trigger] rest[j]).date.is_after(
        (#[trigger] rest[i]).date,
    ) by {
        assert(rest[i] == ranked[i] && rest[j] == ranked[j]);
    }
    assert forall|i: int| 0 <= i < ranked.len() implies !last.date.is_after(#[trigger] ranked[i].date) by {
        if i < ranked.len() - 1 {
            assert(!ranked[ranked.len() - 1].date.is_after(ranked[i].date));
        }
    }
}

/// Two orders that are most recent first and hold the same sets under
/// every date, in the same order, are one order.
proof fn lemma_ordered_and_stable_is_unique(left: Seq<DatedSet>, right: Seq<DatedSet>)
    requires
        is_most_recent_first(left),
        is_most_recent_first(right),
        forall|date: CalendarDate| #[trigger]
            left.filter(done_on(date)) == right.filter(done_on(date)),
    ensures
        left == right,
    decreases left.len(),
{
    if left.len() == 0 {
        if right.len() > 0 {
            lemma_last_of_ordered(right);
            let date = right.last().date;
            assert(left.filter(done_on(date)) == right.filter(done_on(date)));
            left.lemma_filter_len(done_on(date));
        }
        assert(left =~= right);
    } else {
        lemma_last_of_ordered(left);
        let x = left.last();
        let from_left = left.filter(done_on(x.date));
        assert(from_left == right.filter(done_on(x.date)));
        right.lemma_filter_len(done_on(x.date));
        assert(right.len() > 0);
        lemma_last_of_ordered(right);
        let y = right.last();
        let from_right = right.filter(done_on(y.date));
        assert(left.filter(done_on(y.date)) == from_right);
        // A set of the date of `x` stands in `right`, one of the date of `y` in `left`.
        assert(from_left.contains(from_left.last())) by {
            assert(from_left[from_left.len() - 1] == from_left.last());
        }
        right.lemma_filter_contains_rev(done_on(x.date), from_left.last());
        let at_right = choose|i: int| 0 <= i < right.len() && right[i] == x;
        assert(!y.date.is_after(right[at_right].date));
        assert(from_right.contains(from_right.last())) by {
            assert(from_right[from_right.len() - 1] == from_right.last());
        }
        left.lemma_filter_contains_rev(done_on(y.date), from_right.last());
        let at_left = choose|i: int| 0 <= i < left.len() && left[i] == y;
        assert(!x.date.is_after(left[at_left].date));
        assert(x.date == y.date);
        assert(x == y);
        let left_rest = left.drop_last();
        let right_rest = right.drop_last();
        assert(left_rest.push(x) == left);
        assert(right_rest.push(y) == right);
        assert forall|date: CalendarDate| #[trigger]
            left_rest.filter(done_on(date)) == right_rest.filter(done_on(date)) by {
            left_rest.lemma_filter_push(x, done_on(date));
            right_rest.lemma_filter_push(y, done_on(date));
            assert(left.filter(done_on(date)) == right.filter(done_on(date)));
            if x.date == date {
                assert(left_rest.filter(done_on(date)) == left.filter(done_on(date)).drop_last());
                assert(right_rest.filter(done_on(date)) == right.filter(done_on(date)).drop_last());
            }
        }
        lemma_ordered_and_stable_is_unique(left_rest, right_rest);
    }
}

/// The ranking is the one order of the sets that is most recent first and
/// keeps, under every date, the order in which the sets were logged.
pub proof fn law_ranking_is_determined(sets: Seq<DatedSet>, ranked: Seq<DatedSet>)
    requires
        is_most_recent_first(ranked),
        forall|date: CalendarDate| #[trigger]
            ranked.filter(done_on(date)) == sets.filter(done_on(date)),
    ensures
        ranked == most_recent_first(sets),
{
    law_most_recent_first_is_ordered(sets);
    assert forall|date: CalendarDate| #[trigger]
        ranked.filter(done_on(date)) == most_recent_first(sets).filter(done_on(date)) by {
        law_same_date_keeps_logging_order(sets, date);
    }
    lemma_ordered_and_stable_is_unique(ranked, most_recent_first(sets));
}

/// The query returns `n` sets, or every matching set where fewer than `n`
/// were logged.
pub proof fn law_last_n_sets_len(user: UserView, exercise: Seq<char>, n: nat)
    ensures
        last_n_sets_of(user, exercise, n).len() == at_most(
            n,
            sets_in_sessions(user.gym_sessions, exercise).len(),
        ),
{
    lemma_most_recent_first_len(sets_in_sessions(user.gym_sessions, exercise));
}

/// The sets that the query leaves out are not more recent than any set
/// that it returns.
pub proof fn law_dropped_sets_are_not_more_recent(sets: Seq<DatedSet>, n: nat, kept: int, dropped: int)
    requires
        0 <= kept < most_recent(sets, n).len(),
        most_recent(sets, n).len() <= dropped < sets.len(),
    ensures
        most_recent(sets, n)[kept] == most_recent_first(sets)[kept],
        !most_recent_first(sets)[dropped].date.is_after(most_recent(sets, n)[kept].date),
{
    lemma_most_recent_first_len(sets);
    law_most_recent_first_is_ordered(sets);
}

proof fn lemma_no_match_in_logs(date: CalendarDate, logs: Seq<ExerciseLogView>, exercise: Seq<char>)
    requires
        forall|j: int| 0 <= j < logs.len() ==> (#[trigger] logs[j]).exercise.name != exercise,
    ensures
        sets_in_logs(date, logs, exercise) == Seq::<DatedSet>::empty(),
    decreases logs.len(),
{
    if logs.len() > 0 {
        assert(logs.last() == logs[logs.len() - 1]);
        assert forall|j: int| 0 <= j < logs.drop_last().len() implies (#[trigger] logs.drop_last()[j]).exercise.name
            != exercise by {
            assert(logs.drop_last()[j] == logs[j]);
        }
        lemma_no_match_in_logs(date, logs.drop_last(), exercise);
    }
}

proof fn lemma_no_match_in_sessions(sessions: Seq<GymSessionView>, exercise: Seq<char>)
    requires
        forall|i: int, j: int|
            0 <= i < sessions.len() && 0 <= j < sessions[i].exercises.len() ==> (
            #[trigger] sessions[i].exercises[j]).exercise.name != exercise,
    ensures
        sets_in_sessions(sessions, exercise) == Seq::<DatedSet>::empty(),
    decreases sessions.len(),
{
    if sessions.len() > 0 {
        let last = sessions.last();
        assert(last == sessions[sessions.len() - 1]);
        assert forall|j: int| 0 <= j < last.exercises.len() implies (#[trigger] last.exercises[j]).exercise.name
            != exercise by {
            assert(sessions[sessions.len() - 1].exercises[j].exercise.name != exercise);
        }
        lemma_no_match_in_logs(last.date, last.exercises, exercise);
        assert forall|i: int, j: int|
            0 <= i < sessions.drop_last().len() && 0 <= j < sessions.drop_last()[i].exercises.len() implies (
        #[trigger] sessions.drop_last()[i].exercises[j]).exercise.name != exercise by {
            assert(sessions.drop_last()[i] == sessions[i]);
            assert(sessions[i].exercises[j].exercise.name != exercise);
        }
        lemma_no_match_in_sessions(sessions.drop_last(), exercise);
        assert(sets_in_sessions(sessions, exercise) =~= Seq::<DatedSet>::empty());
    }
}

/// Where the user logged nothing under the name asked for, the query
/// returns no sets, whatever `n` is.
pub proof fn law_no_match_no_sets(user: UserView, exercise: Seq<char>, n: nat)
    requires
        forall|i: int, j: int|
            0 <= i < user.gym_sessions.len() && 0 <= j < user.gym_sessions[i].exercises.len() ==> (
            #[trigger] user.gym_sessions[i].exercises[j]).exercise.name != exercise,
    ensures
        last_n_sets_of(user, exercise, n) == Seq::<ExerciseSet>::empty(),
{
    lemma_no_match_in_sessions(user.gym_sessions, exercise);
    assert(most_recent_first(Seq::<DatedSet>::empty()) =~= Seq::<DatedSet>::empty());
    assert(last_n_sets_of(user, exercise, n) =~= Seq::<ExerciseSet>::empty());
}

proof fn lemma_logged_set_is_in_logs(
    date: CalendarDate,
    logs: Seq<ExerciseLogView>,
    exercise: Seq<char>,
    j: int,
    k: int,
)
    requires
        0 <= j < logs.len(),
        logs[j].exercise.name == exercise,
        0 <= k < logs[j].sets.len(),
    ensures
        sets_in_logs(date, logs, exercise).contains(DatedSet { date, set: logs[j].sets[k] }),
    decreases logs.len(),
{
    let item = DatedSet { date, set: logs[j].sets[k] };
    let earlier = sets_in_logs(date, logs.drop_last(), exercise);
    if j == logs.len() - 1 {
        let found = dated(date, logs.last().sets);
        assert(found[k] == item);
        assert((earlier + found)[earlier.len() + k] == item);
    } else {
        assert(logs.drop_last()[j] == logs[j]);
        lemma_logged_set_is_in_logs(date, logs.drop_last(), exercise, j, k);
        let at = choose|at: int| 0 <= at < earlier.len() && earlier[at] == item;
        if logs.last().exercise.name == exercise {
            assert((earlier + dated(date, logs.last().sets))[at] == item);
        }
    }
}

/// A set comes back as it was logged. Once a session is appended to a
/// user's history, a query for an exercise of that session that asks for
/// at least as many sets as the user has logged for it returns each set of
/// that exercise with the weight, the repetitions and the struggle score
/// that the session holds.
pub proof fn law_logged_sets_come_back(
    before: UserView,
    after: UserView,
    session: GymSessionView,
    exercise: Seq<char>,
    n: nat,
    j: int,
    k: int,
)
    requires
        after.gym_sessions == before.gym_sessions.push(session),
        0 <= j < session.exercises.len(),
        session.exercises[j].exercise.name == exercise,
        0 <= k < session.exercises[j].sets.len(),
        n >= sets_in_sessions(after.gym_sessions, exercise).len(),
    ensures
        last_n_sets_of(after, exercise, n).contains(session.exercises[j].sets[k]),
{
    let item = DatedSet { date: session.date, set: session.exercises[j].sets[k] };
    let old_sets = sets_in_sessions(before.gym_sessions, exercise);
    let new_sets = sets_in_logs(session.date, session.exercises, exercise);
    let all = sets_in_sessions(after.gym_sessions, exercise);
    assert(after.gym_sessions.drop_last() == before.gym_sessions);
    assert(after.gym_sessions.last() == session);
    assert(all == old_sets + new_sets);
    lemma_logged_set_is_in_logs(session.date, session.exercises, exercise, j, k);
    let at = choose|at: int| 0 <= at < new_sets.len() && new_sets[at] == item;
    assert(all[old_sets.len() + at] == item);
    assert(all.contains(item));
    law_most_recent_first_keeps_the_sets(all);
    vstd::seq_lib::to_multiset_contains(all, item);
    vstd::seq_lib::to_multiset_contains(most_recent_first(all), item);
    let ranked = most_recent_first(all);
    assert(ranked.contains(item));
    let place = choose|place: int| 0 <= place < ranked.len() && ranked[place] == item;
    assert(most_recent(all, n) =~= ranked);
    assert(last_n_sets_of(after, exercise, n)[place] == item.set);
}

/// Whether the history holds `item`: a log of `exercise` in a session of the
/// item's date holds the item's set.
pub open spec fn was_logged(sessions: Seq<GymSessionView>, exercise: Seq<char>, item: DatedSet) -> bool {
    exists|i: int, j: int, k: int|
        0 <= i < sessions.len() && 0 <= j < sessions[i].exercises.len() && 0 <= k
            < sessions[i].exercises[j].sets.len() && sessions[i].date == item.date
            && sessions[i].exercises[j].exercise.name == exercise
            && #[trigger] sessions[i].exercises[j].sets[k] == item.set
}

proof fn lemma_set_in_logs_was_logged(
    date: CalendarDate,
    logs: Seq<ExerciseLogView>,
    exercise: Seq<char>,
    item: DatedSet,
) -> (found: (int, int))
    requires
        sets_in_logs(date, logs, exercise).contains(item),
    ensures
        item.date == date,
        0 <= found.0 < logs.len(),
        0 <= found.1 < logs[found.0].sets.len(),
        logs[found.0].exercise.name == exercise,
        logs[found.0].sets[found.1] == item.set,
    decreases logs.len(),
{
    let all = sets_in_logs(date, logs, exercise);
    let at = choose|at: int| 0 <= at < all.len() && all[at] == item;
    let earlier = sets_in_logs(date, logs.drop_last(), exercise);
    if logs.last().exercise.name == exercise && at >= earlier.len() {
        let k = at - earlier.len();
        assert(dated(date, logs.last().sets)[k] == item);
        (logs.len() - 1, k)
    } else {
        assert(earlier[at] == item);
        let found = lemma_set_in_logs_was_logged(date, logs.drop_last(), exercise, item);
        assert(logs.drop_last()[found.0] == logs[found.0]);
        found
    }
}

proof fn lemma_set_in_sessions_was_logged(
    sessions: Seq<GymSessionView>,
    exercise: Seq<char>,
    item: DatedSet,
)
    requires
        sets_in_sessions(sessions, exercise).contains(item),
    ensures
        was_logged(sessions, exercise, item),
    decreases sessions.len(),
{
    let all = sets_in_sessions(sessions, exercise);
    let at = choose|at: int| 0 <= at < all.len() && all[at] == item;
    let earlier = sets_in_sessions(sessions.drop_last(), exercise);
    let last = sessions.last();
    let latest = sets_in_logs(last.date, last.exercises, exercise);
    if at >= earlier.len() {
        assert(latest[at - earlier.len()] == item);
        let found = lemma_set_in_logs_was_logged(last.date, last.exercises, exercise, item);
        let i = sessions.len() - 1;
        assert(sessions[i].exercises[found.0].sets[found.1] == item.set);
    } else {
        assert(earlier[at] == item);
        lemma_set_in_sessions_was_logged(sessions.drop_last(), exercise, item);
        let (i, j, k) = choose|i: int, j: int, k: int|
            0 <= i < sessions.drop_last().len() && 0 <= j < sessions.drop_last()[i].exercises.len()
                && 0 <= k < sessions.drop_last()[i].exercises[j].sets.len()
                && sessions.drop_last()[i].date == item.date
                && sessions.drop_last()[i].exercises[j].exercise.name == exercise
                && #[trigger] sessions.drop_last()[i].exercises[j].sets[k] == item.set;
        assert(sessions.drop_last()[i] == sessions[i]);
        assert(sessions[i].exercises[j].sets[k] == item.set);
    }
}

/// Nothing comes back that was not logged: every set that the query
/// returns stands, with its weight, its repetitions and its struggle score,
/// in a log of the exercise in the user's history.
pub proof fn law_returned_sets_were_logged(user: UserView, exercise: Seq<char>, n: nat, at: int)
    requires
        0 <= at < last_n_sets_of(user, exercise, n).len(),
    ensures
        last_n_sets_of(user, exercise, n)[at] == most_recent(
            sets_in_sessions(user.gym_sessions, exercise),
            n,
        )[at].set,
        was_logged(
            user.gym_sessions,
            exercise,
            most_recent(sets_in_sessions(user.gym_sessions, exercise), n)[at],
        ),
{
    let all = sets_in_sessions(user.gym_sessions, exercise);
    let ranked = most_recent_first(all);
    let item = most_recent(all, n)[at];
    assert(ranked[at] == item);
    assert(ranked.contains(item));
    law_most_recent_first_keeps_the_sets(all);
    vstd::seq_lib::to_multiset_contains(all, item);
    vstd::seq_lib::to_multiset_contains(ranked, item);
    lemma_set_in_sessions_was_logged(user.gym_sessions, exercise, item);
}

/// A set of the query's window: the date of its session and the set.
#[derive(Clone, Copy)]
struct Tagged {
    date: SessionDate,
    set: ExerciseSet,
}

impl View for Tagged {
    type V = DatedSet;

    closed spec fn view(&self) -> DatedSet {
        DatedSet { date: self.date@, set: self.set }
    }
}

spec fn window_view(window: Seq<Tagged>) -> Seq<DatedSet> {
    window.map_values(|item: Tagged| item@)
}

/// Offers a set to the window of the `n` most recent sets seen so far.
fn offer(window: &mut Vec<Tagged>, item: Tagged, n: usize)
    requires
        old(window)@.len() <= n,
    ensures
        window_view(final(window)@) == window_step(window_view(old(window)@), item@, n as nat),
        final(window)@.len() <= n,
{
    let ghost before = window_view(window@);
    let mut k: usize = 0;
    while k < window.len() && !item.date.is_after(&window[k].date)
        invariant
            k <= window@.len(),
            forall|j: int| 0 <= j < k ==> !item@.date.is_after(#[trigger] window@[j]@.date),
        decreases window@.len() - k,
    {
        k += 1;
    }
    proof {
        assert forall|j: int| 0 <= j < k implies !item@.date.is_after(#[trigger] before[j].date) by {
            assert(before[j] == window@[j]@);
        }
        if k < window@.len() {
            assert(before[k as int] == window@[k as int]@);
        }
        lemma_slot_is(before, item@.date, k as int);
    }
    if k < n {
        if window.len() == n {
            window.pop();
        }
        window.insert(k, item);
    }
    assert(window_view(window@) =~= window_step(before, item@, n as nat));
}

/// The sets of the window, without their dates.
fn project(window: &Vec<Tagged>) -> (sets: Vec<ExerciseSet>)
    ensures
        sets@ == window_view(window@).map_values(|item: DatedSet| item.set),
{
    let mut sets: Vec<ExerciseSet> = Vec::new();
    let mut i: usize = 0;
    while i < window.len()
        invariant
            i <= window@.len(),
            sets@.len() == i,
            forall|k: int| 0 <= k < i ==> sets@[k] == (#[trigger] window@[k])@.set,
        decreases window@.len() - i,
    {
        sets.push(window[i].set);
        i += 1;
    }
    assert(sets@ =~= window_view(window@).map_values(|item: DatedSet| item.set));
    sets
}

/// Offers the sets of one log to the window.
fn offer_sets(window: &mut Vec<Tagged>, date: SessionDate, sets: &Vec<ExerciseSet>, n: usize, Ghost(
    seen,
): Ghost<Seq<DatedSet>>)
    requires
        old(window)@.len() <= n,
        window_view(old(window)@) == most_recent(seen, n as nat),
    ensures
        final(window)@.len() <= n,
        window_view(final(window)@) == most_recent(seen + dated(date@, sets@), n as nat),
{
    let mut k: usize = 0;
    assert(seen + dated(date@, sets@.take(0)) =~= seen);
    while k < sets.len()
        invariant
            k <= sets@.len(),
            window@.len() <= n,
            window_view(window@) == most_recent(seen + dated(date@, sets@.take(k as int)), n as nat),
        decreases sets@.len() - k,
    {
        let item = Tagged { date, set: sets[k] };
        proof {
            let so_far = seen + dated(date@, sets@.take(k as int));
            lemma_most_recent_push(so_far, item@, n as nat);
            assert(so_far.push(item@) =~= seen + dated(date@, sets@.take(k + 1)));
        }
        offer(window, item, n);
        k += 1;
    }
    assert(sets@.take(sets@.len() as int) == sets@);
}

/// Offers the sets that the logs of one session hold for the exercise.
fn offer_session(window: &mut Vec<Tagged>, session: &GymSession, exercise_name: &String, n: usize, Ghost(
    seen,
): Ghost<Seq<DatedSet>>)
    requires
        old(window)@.len() <= n,
        window_view(old(window)@) == most_recent(seen, n as nat),
    ensures
        final(window)@.len() <= n,
        window_view(final(window)@) == most_recent(
            seen + sets_in_logs(session@.date, session@.exercises, exercise_name@),
            n as nat,
        ),
{
    let ghost logs = session@.exercises;
    let ghost date = session@.date;
    let mut j: usize = 0;
    assert(seen + sets_in_logs(date, logs.take(0), exercise_name@) =~= seen);
    while j < session.exercises.len()
        invariant
            j <= session.exercises@.len(),
            logs == session@.exercises,
            date == session@.date,
            window@.len() <= n,
            window_view(window@) == most_recent(
                seen + sets_in_logs(date, logs.take(j as int), exercise_name@),
                n as nat,
            ),
        decreases session.exercises@.len() - j,
    {
        let log = &session.exercises[j];
        proof {
            assert(logs.take(j + 1).drop_last() == logs.take(j as int));
            assert(logs.take(j + 1).last() == log@);
        }
        if *log.exercise.name() == *exercise_name {
            let ghost so_far = seen + sets_in_logs(date, logs.take(j as int), exercise_name@);
            offer_sets(window, session.date, &log.sets, n, Ghost(so_far));
            assert(so_far + dated(date, log@.sets) =~= seen + sets_in_logs(
                date,
                logs.take(j + 1),
                exercise_name@,
            ));
        }
        j += 1;
    }
    assert(logs.take(logs.len() as int) == logs);
}

/// The `n` most recent sets that `user` logged for the exercise named
/// `exercise_name`, most recent session first; sets of one date come in the
/// order in which they were logged. Where fewer than `n` sets match, all of
/// them are returned; where none matches, the result is empty.
pub fn last_n_sets(user: &User, exercise_name: &String, n: usize) -> (sets: Vec<ExerciseSet>)
    ensures
        sets@ == last_n_sets_of(user@, exercise_name@, n as nat),
{
    let ghost sessions = user@.gym_sessions;
    let mut window: Vec<Tagged> = Vec::new();
    let mut i: usize = 0;
    assert(window_view(window@) =~= most_recent(
        sets_in_sessions(sessions.take(0), exercise_name@),
        n as nat,
    ));
    while i < user.gym_sessions.len()
        invariant
            i <= user.gym_sessions@.len(),
            sessions == user@.gym_sessions,
            window@.len() <= n,
            window_view(window@) == most_recent(
                sets_in_sessions(sessions.take(i as int), exercise_name@),
                n as nat,
            ),
        decreases user.gym_sessions@.len() - i,
    {
        let session = &user.gym_sessions[i];
        proof {
            assert(sessions.take(i + 1).drop_last() == sessions.take(i as int));
            assert(sessions.take(i + 1).last() == session@);
        }
        offer_session(
            &mut window,
            session,
            exercise_name,
            n,
            Ghost(sets_in_sessions(sessions.take(i as int), exercise_name@)),
        );
        i += 1;
    }
    assert(sessions.take(sessions.len() as int) == sessions);
    project(&window)
}

} // verus!
