use vstd::prelude::*;

use crate::date::{Date, DayOfWeek, UncheckedDate};
use crate::errors::TodoError;
use crate::note::Note;
use crate::tracker::{has_id, TodoModel};

verus! {

/// An account with no notes shows an empty list for every valid date.
pub proof fn lemma_empty_account_shows_nothing(date: UncheckedDate)
    requires
        Date::of(date).is_valid(),
    ensures
        TodoModel::empty().get_notes_op(date) == Ok::<Seq<Note>, TodoError>(Seq::empty()),
{
    let d = Date::of(date);
    assert(TodoModel::empty().view_on(d) =~= Seq::empty());
}

/// A one-off note added for today or later succeeds and is then shown for its
/// date; one for a date before today is refused and changes nothing.
pub proof fn lemma_added_note_is_shown(
    m: TodoModel,
    date: UncheckedDate,
    today: int,
    title: String,
    description: String,
)
    requires
        m.wf(),
        m.next_id < u64::MAX,
        Date::of(date).is_valid(),
    ensures
        ({
            let (after, r) = m.add_note_op(date, today, title, description);
            &&& Date::of(date).day_number() >= today ==> {
                &&& r == Ok::<u64, TodoError>(m.next_id)
                &&& after.view_on(Date::of(date)).contains(
                    Note::fresh(m.next_id, title, description, false),
                )
            }
            &&& Date::of(date).day_number() < today ==> {
                &&& r == Err::<u64, TodoError>(TodoError::CantAddNoteEarlierThanToday)
                &&& after == m
            }
        }),
{
    let d = Date::of(date);
    let (after, r) = m.add_note_op(date, today, title, description);
    if d.day_number() >= today {
        let k = m.notes[d].len() as int;
        assert(after.view_on(d)[k] == Note::fresh(m.next_id, title, description, false));
    }
}

/// A repeating note added for a weekday is shown, not completed, for every
/// date of that weekday; the list of a date of any other weekday stays as it
/// was and holds no note with the new id.
pub proof fn lemma_repeating_note_follows_weekday(
    m: TodoModel,
    w: DayOfWeek,
    title: String,
    description: String,
    d: Date,
)
    requires
        m.wf(),
        m.next_id < u64::MAX,
        d.is_valid(),
    ensures
        ({
            let (after, id) = m.add_repeating_note_op(w, title, description);
            &&& d.weekday() == w ==> after.view_on(d).contains(
                Note::fresh(id, title, description, true),
            )
            &&& d.weekday() != w ==> after.view_on(d) == m.view_on(d) && !has_id(
                after.view_on(d),
                id,
            )
        }),
{
    let (after, id) = m.add_repeating_note_op(w, title, description);
    if d.weekday() == w {
        let k = (m.notes[d].len() + m.repeating_notes[w].len()) as int;
        assert(!m.completed_repeating_notes[d].contains(id));
        assert(after.view_on(d)[k] == Note::fresh(id, title, description, true));
    } else {
        assert(after.view_on(d) =~= m.view_on(d));
        if has_id(after.view_on(d), id) {
            let k = choose|k: int| 0 <= k < after.view_on(d).len() && after.view_on(d)[k].id == id;
            if k < m.notes[d].len() {
                assert(m.notes[d][k].id < m.next_id);
            } else {
                assert(m.repeating_notes[d.weekday()][k - m.notes[d].len()].id < m.next_id);
            }
        }
    }
}

/// Completing a repeating note today marks it completed in today's list and
/// leaves the list of every other date, of the same weekday or not, as it was.
pub proof fn lemma_completion_is_per_occurrence(
    m: TodoModel,
    date: UncheckedDate,
    today: int,
    note_id: u64,
    other: Date,
)
    requires
        m.wf(),
        Date::of(date).is_valid(),
        Date::of(date).day_number() == today,
        has_id(m.repeating_notes[Date::of(date).weekday()], note_id),
        other != Date::of(date),
    ensures
        ({
            let (after, r) = m.complete_note_op(date, today, note_id);
            let shown = after.view_on(Date::of(date));
            &&& r == Ok::<(), TodoError>(())
            &&& has_id(shown, note_id)
            &&& forall|k: int| 0 <= k < shown.len() && shown[k].id == note_id ==> shown[k].completed
            &&& after.view_on(other) == m.view_on(other)
        }),
{
    let d = Date::of(date);
    let w = d.weekday();
    let j = choose|j: int| 0 <= j < m.repeating_notes[w].len() && m.repeating_notes[w][j].id == note_id;
    if has_id(m.notes[d], note_id) {
        let i = choose|i: int| 0 <= i < m.notes[d].len() && m.notes[d][i].id == note_id;
        assert(m.notes[d][i].id != m.repeating_notes[w][j].id);
    }
    let (after, r) = m.complete_note_op(date, today, note_id);
    let shown = after.view_on(d);
    let n = m.notes[d].len();
    assert(shown[n + j].id == note_id);
    assert forall|k: int| 0 <= k < shown.len() && shown[k].id == note_id implies shown[k].completed by {
        if k < n {
            assert(m.notes[d][k].id != m.repeating_notes[w][j].id);
        }
    }
    assert(after.view_on(other) =~= m.view_on(other));
}

/// Editing or deleting a one-off note is refused for today and earlier dates
/// and changes nothing; for a later date holding the id it succeeds.
pub proof fn lemma_edit_delete_need_future_date(
    m: TodoModel,
    date: UncheckedDate,
    today: int,
    note_id: u64,
    title: String,
    description: String,
)
    requires
        Date::of(date).is_valid(),
    ensures
        Date::of(date).day_number() <= today ==> {
            &&& m.edit_note_op(date, today, note_id, title, description) == (m, Err::<(), TodoError>(
                TodoError::CantEditTodayOrEarlierNotes,
            ))
            &&& m.delete_note_op(date, today, note_id) == (m, Err::<(), TodoError>(
                TodoError::CantDeleteTodayOrEarlierNotes,
            ))
        },
        Date::of(date).day_number() > today && has_id(m.notes[Date::of(date)], note_id) ==> {
            &&& m.edit_note_op(date, today, note_id, title, description).1 == Ok::<(), TodoError>(())
            &&& m.delete_note_op(date, today, note_id).1 == Ok::<(), TodoError>(())
        },
{
}

/// An id that the addressed list does not hold makes editing, deleting and
/// completing fail with `NoteIdDoesntExist` and change nothing.
pub proof fn lemma_missing_id_changes_nothing(
    m: TodoModel,
    date: UncheckedDate,
    today: int,
    w: DayOfWeek,
    note_id: u64,
    title: String,
    description: String,
)
    ensures
        Date::of(date).is_valid() && Date::of(date).day_number() > today && !has_id(
            m.notes[Date::of(date)],
            note_id,
        ) ==> {
            &&& m.edit_note_op(date, today, note_id, title, description) == (m, Err::<(), TodoError>(
                TodoError::NoteIdDoesntExist,
            ))
            &&& m.delete_note_op(date, today, note_id) == (m, Err::<(), TodoError>(
                TodoError::NoteIdDoesntExist,
            ))
        },
        !has_id(m.repeating_notes[w], note_id) ==> {
            &&& m.edit_repeating_note_op(w, note_id, title, description) == (m, Err::<
                (),
                TodoError,
            >(TodoError::NoteIdDoesntExist))
            &&& m.delete_repeating_note_op(w, note_id) == (m, Err::<(), TodoError>(
                TodoError::NoteIdDoesntExist,
            ))
        },
        Date::of(date).is_valid() && Date::of(date).day_number() == today && !has_id(
            m.notes[Date::of(date)],
            note_id,
        ) && !has_id(m.repeating_notes[Date::of(date).weekday()], note_id) ==> m.complete_note_op(
            date,
            today,
            note_id,
        ) == (m, Err::<(), TodoError>(TodoError::NoteIdDoesntExist)),
{
}

} // verus!
