use todo_notes::{Date, DayOfWeek, Note, Todo, TodoError};

/// 2024-06-10 00:00 UTC, a Monday, in milliseconds since 1970-01-01.
const MONDAY: u64 = 1717977600000;

fn note(id: u64, title: &str, description: &str, completed: bool, is_repeating: bool) -> Note {
    Note {
        id,
        completed,
        title: String::from(title),
        description: String::from(description),
        is_repeating,
    }
}

#[test]
fn monday_scenario() {
    let mut todo = Todo::new();
    assert_eq!(todo.add_note(MONDAY, (2024, 6, 10), String::from("A"), String::from("a")), Ok(0));
    assert_eq!(
        todo.add_note(MONDAY, (2024, 6, 9), String::from("B"), String::from("b")),
        Err(TodoError::CantAddNoteEarlierThanToday)
    );
    assert_eq!(todo.add_repeating_note(DayOfWeek::Mon, String::from("C"), String::from("c")), 1);
    assert_eq!(
        todo.get_notes((2024, 6, 10)),
        Ok(vec![note(0, "A", "a", false, false), note(1, "C", "c", false, true)])
    );
    assert_eq!(todo.get_notes((2024, 6, 17)), Ok(vec![note(1, "C", "c", false, true)]));
    assert_eq!(todo.complete_note(MONDAY, (2024, 6, 10), 1), Ok(()));
    assert_eq!(
        todo.get_notes((2024, 6, 10)),
        Ok(vec![note(0, "A", "a", false, false), note(1, "C", "c", true, true)])
    );
    assert_eq!(todo.get_notes((2024, 6, 17)), Ok(vec![note(1, "C", "c", false, true)]));
}

#[test]
fn empty_account_shows_nothing() {
    let todo = Todo::new();
    assert_eq!(todo.get_notes((2024, 6, 10)), Ok(vec![]));
    assert_eq!(todo.get_notes((0, 1, 1)), Ok(vec![]));
    assert_eq!(todo.get_notes((65535, 12, 31)), Ok(vec![]));
    assert_eq!(todo.get_repeating_notes(DayOfWeek::Sun), Ok(vec![]));
}

#[test]
fn get_notes_rejects_invalid_dates() {
    let todo = Todo::new();
    assert_eq!(todo.get_notes((2023, 2, 29)), Err(TodoError::InvalidDate));
    assert_eq!(todo.get_notes((2024, 13, 1)), Err(TodoError::InvalidDate));
}

#[test]
fn mutations_reject_invalid_dates() {
    let mut todo = Todo::new();
    let t = || String::from("t");
    assert_eq!(todo.add_note(MONDAY, (2024, 2, 30), t(), t()), Err(TodoError::InvalidDate));
    assert_eq!(todo.edit_note(MONDAY, (2024, 2, 30), 0, t(), t()), Err(TodoError::InvalidDate));
    assert_eq!(todo.delete_note(MONDAY, (2024, 2, 30), 0), Err(TodoError::InvalidDate));
    assert_eq!(todo.complete_note(MONDAY, (2024, 2, 30), 0), Err(TodoError::InvalidDate));
}

#[test]
fn note_added_for_a_later_date_is_shown_there() {
    let mut todo = Todo::new();
    let id = todo
        .add_note(MONDAY, (2024, 7, 1), String::from("Later"), String::from("l"))
        .expect("add fails");
    assert_eq!(id, 0);
    assert_eq!(todo.get_notes((2024, 7, 1)), Ok(vec![note(0, "Later", "l", false, false)]));
    assert_eq!(todo.get_notes((2024, 6, 10)), Ok(vec![]));
}

#[test]
fn repeating_note_follows_its_weekday_only() {
    let mut todo = Todo::new();
    let id = todo.add_repeating_note(DayOfWeek::Wed, String::from("W"), String::from("w"));
    for d in [(2024, 6, 12), (2024, 6, 19), (2024, 1, 3), (1970, 1, 7)] {
        assert_eq!(todo.get_notes(d), Ok(vec![note(id, "W", "w", false, true)]));
    }
    for d in [(2024, 6, 10), (2024, 6, 13), (2024, 6, 16)] {
        assert_eq!(todo.get_notes(d), Ok(vec![]));
    }
    assert_eq!(todo.get_repeating_notes(DayOfWeek::Wed), Ok(vec![note(id, "W", "w", false, true)]));
    assert_eq!(todo.get_repeating_notes(DayOfWeek::Thu), Ok(vec![]));
}

#[test]
fn completing_a_repeating_note_twice_keeps_it_completed() {
    let mut todo = Todo::new();
    let id = todo.add_repeating_note(DayOfWeek::Mon, String::from("R"), String::from("r"));
    assert_eq!(todo.complete_note(MONDAY, (2024, 6, 10), id), Ok(()));
    assert_eq!(todo.complete_note(MONDAY, (2024, 6, 10), id), Ok(()));
    assert_eq!(todo.get_notes((2024, 6, 10)), Ok(vec![note(id, "R", "r", true, true)]));
    assert_eq!(todo.get_notes((2024, 6, 3)), Ok(vec![note(id, "R", "r", false, true)]));
    // the stored template itself stays incomplete
    assert_eq!(todo.get_repeating_notes(DayOfWeek::Mon), Ok(vec![note(id, "R", "r", false, true)]));
}

#[test]
fn edit_and_delete_need_a_future_date() {
    let mut todo = Todo::new();
    let t = || String::from("t");
    let id = todo.add_note(MONDAY, (2024, 6, 11), t(), t()).expect("add fails");
    assert_eq!(
        todo.edit_note(MONDAY, (2024, 6, 10), id, t(), t()),
        Err(TodoError::CantEditTodayOrEarlierNotes)
    );
    assert_eq!(
        todo.delete_note(MONDAY, (2024, 6, 9), id),
        Err(TodoError::CantDeleteTodayOrEarlierNotes)
    );
    assert_eq!(todo.edit_note(MONDAY, (2024, 6, 11), id, String::from("E"), String::from("e")), Ok(()));
    assert_eq!(todo.get_notes((2024, 6, 11)), Ok(vec![note(id, "E", "e", false, false)]));
    assert_eq!(todo.delete_note(MONDAY, (2024, 6, 11), id), Ok(()));
    assert_eq!(todo.get_notes((2024, 6, 11)), Ok(vec![]));
}

#[test]
fn missing_ids_change_nothing() {
    let mut todo = Todo::new();
    let t = || String::from("t");
    let one_off = todo.add_note(MONDAY, (2024, 6, 11), t(), t()).expect("add fails");
    let repeating = todo.add_repeating_note(DayOfWeek::Tue, t(), t());
    let before = todo.get_notes((2024, 6, 11));
    assert_eq!(todo.edit_note(MONDAY, (2024, 6, 11), 42, t(), t()), Err(TodoError::NoteIdDoesntExist));
    assert_eq!(todo.delete_note(MONDAY, (2024, 6, 11), 42), Err(TodoError::NoteIdDoesntExist));
    assert_eq!(
        todo.edit_repeating_note(DayOfWeek::Tue, one_off, t(), t()),
        Err(TodoError::NoteIdDoesntExist)
    );
    assert_eq!(todo.delete_repeating_note(DayOfWeek::Mon, repeating), Err(TodoError::NoteIdDoesntExist));
    assert_eq!(todo.complete_note(MONDAY, (2024, 6, 10), 42), Err(TodoError::NoteIdDoesntExist));
    assert_eq!(todo.get_notes((2024, 6, 11)), before);
    assert_eq!(todo.get_notes((2024, 6, 10)), Ok(vec![]));
}

#[test]
fn one_off_edit_does_not_reach_templates() {
    let mut todo = Todo::new();
    let t = || String::from("t");
    let repeating = todo.add_repeating_note(DayOfWeek::Tue, t(), t());
    assert_eq!(
        todo.edit_note(MONDAY, (2024, 6, 11), repeating, t(), t()),
        Err(TodoError::NoteIdDoesntExist)
    );
    assert_eq!(todo.delete_note(MONDAY, (2024, 6, 11), repeating), Err(TodoError::NoteIdDoesntExist));
}

#[test]
fn completion_only_today() {
    let mut todo = Todo::new();
    let t = || String::from("t");
    let id = todo.add_note(MONDAY, (2024, 6, 11), t(), t()).expect("add fails");
    assert_eq!(todo.complete_note(MONDAY, (2024, 6, 11), id), Err(TodoError::CantCompleteNoteNotFromToday));
    assert_eq!(todo.complete_note(MONDAY + 86400000, (2024, 6, 11), id), Ok(()));
    assert_eq!(todo.get_notes((2024, 6, 11)), Ok(vec![note(id, "t", "t", true, false)]));
}

#[test]
fn ids_are_shared_and_increasing() {
    let mut todo = Todo::new();
    let t = || String::from("t");
    assert_eq!(todo.add_repeating_note(DayOfWeek::Fri, t(), t()), 0);
    assert_eq!(todo.add_note(MONDAY, (2024, 6, 10), t(), t()), Ok(1));
    assert_eq!(todo.delete_repeating_note(DayOfWeek::Fri, 0), Ok(()));
    assert_eq!(todo.add_repeating_note(DayOfWeek::Fri, t(), t()), 2);
}

#[test]
fn today_and_is_today() {
    let todo = Todo::new();
    let monday = Date { year: 2024, month: 6, day: 10 };
    assert_eq!(todo.today(MONDAY), monday);
    assert!(todo.is_today(MONDAY, monday));
    assert!(!todo.is_today(MONDAY, Date { year: 2024, month: 6, day: 11 }));
    assert!(!todo.is_today(MONDAY + 86400000, monday));
}

#[test]
fn note_new_and_duplicate() {
    let n = Note::new(7, String::from("T"), String::from("D"), true);
    assert_eq!(n, note(7, "T", "D", false, true));
    assert_eq!(n.duplicate(), n);
}
