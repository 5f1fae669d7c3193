use std::collections::HashMap;
use vstd::prelude::*;

use crate::date::{day_number_at, Date, DayOfWeek, UncheckedDate, MAX_TIMESTAMP_MILLIS};
use crate::errors::TodoError;
use crate::note::Note;

verus! {

broadcast use vstd::std_specs::hash::group_hash_axioms;

/// One account's notes as mathematical values. Each map is total: a date or
/// weekday with nothing stored maps to the empty sequence or set.
pub struct TodoModel {
    /// One-off notes of each date, in the order they were added.
    pub notes: Map<Date, Seq<Note>>,
    /// Repeating templates of each weekday, in the order they were added.
    pub repeating_notes: Map<DayOfWeek, Seq<Note>>,
    /// Ids of the repeating notes completed on each date.
    pub completed_repeating_notes: Map<Date, Set<u64>>,
    /// The id the next added note gets.
    pub next_id: u64,
}

/// Whether some note of `s` has the id `id`.
pub open spec fn has_id(s: Seq<Note>, id: u64) -> bool {
    exists|i: int| 0 <= i < s.len() && s[i].id == id
}

pub open spec fn is_first_with_id(s: Seq<Note>, id: u64, i: int) -> bool {
    &&& 0 <= i < s.len()
    &&& s[i].id == id
    &&& forall|j: int| 0 <= j < i ==> s[j].id != id
}

/// The position of the first note of `s` with the id `id`.
pub open spec fn first_index_of(s: Seq<Note>, id: u64) -> int {
    choose|i: int| is_first_with_id(s, id, i)
}

/// A note with the id `id` at position `i` makes `first_index_of` the first
/// such position.
pub proof fn lemma_first_index(s: Seq<Note>, id: u64, i: int)
    requires
        0 <= i < s.len(),
        s[i].id == id,
    ensures
        is_first_with_id(s, id, first_index_of(s, id)),
    decreases i,
{
    if exists|j: int| 0 <= j < i && s[j].id == id {
        let j = choose|j: int| 0 <= j < i && s[j].id == id;
        lemma_first_index(s, id, j);
    } else {
        assert(is_first_with_id(s, id, i));
    }
}

/// Where each note of `s.remove(i)` stood in `s`.
proof fn lemma_removed_positions(s: Seq<Note>, i: int)
    requires
        0 <= i < s.len(),
    ensures
        forall|k: int|
            0 <= k < s.len() - 1 ==> #[trigger] s.remove(i)[k] == s[if k < i { k } else { k + 1 }],
{
}

impl TodoModel {
    /// An account with no notes.
    pub open spec fn empty() -> TodoModel {
        TodoModel {
            notes: Map::new(|d: Date| true, |d: Date| Seq::<Note>::empty()),
            repeating_notes: Map::new(|w: DayOfWeek| true, |w: DayOfWeek| Seq::<Note>::empty()),
            completed_repeating_notes: Map::new(|d: Date| true, |d: Date| Set::<u64>::empty()),
            next_id: 0,
        }
    }

    /// Ids below the counter, completed ids included; one-off notes are not
    /// repeating; templates are repeating and never completed themselves; no
    /// two stored notes, one-off or repeating, share an id.
    pub open spec fn wf(self) -> bool {
        &&& forall|d: Date| #[trigger] self.notes.contains_key(d)
        &&& forall|w: DayOfWeek| #[trigger] self.repeating_notes.contains_key(w)
        &&& forall|d: Date| #[trigger] self.completed_repeating_notes.contains_key(d)
        &&& forall|d: Date, i: int|
            0 <= i < self.notes[d].len() ==> (#[trigger] self.notes[d][i]).id < self.next_id
                && !self.notes[d][i].is_repeating
        &&& forall|w: DayOfWeek, i: int|
            0 <= i < self.repeating_notes[w].len() ==> (#[trigger] self.repeating_notes[w][i]).id
                < self.next_id && self.repeating_notes[w][i].is_repeating
                && !self.repeating_notes[w][i].completed
        &&& forall|d: Date, x: u64|
            #[trigger] self.completed_repeating_notes[d].contains(x) ==> x < self.next_id
        &&& forall|d1: Date, i: int, d2: Date, j: int|
            0 <= i < self.notes[d1].len() && 0 <= j < self.notes[d2].len() && (d1 != d2 || i != j)
                ==> (#[trigger] self.notes[d1][i]).id != (#[trigger] self.notes[d2][j]).id
        &&& forall|w1: DayOfWeek, i: int, w2: DayOfWeek, j: int|
            0 <= i < self.repeating_notes[w1].len() && 0 <= j < self.repeating_notes[w2].len() && (
            w1 != w2 || i != j) ==> (#[trigger] self.repeating_notes[w1][i]).id != (
            #[trigger] self.repeating_notes[w2][j]).id
        &&& forall|d: Date, i: int, w: DayOfWeek, j: int|
            0 <= i < self.notes[d].len() && 0 <= j < self.repeating_notes[w].len() ==> (
            #[trigger] self.notes[d][i]).id != (#[trigger] self.repeating_notes[w][j]).id
    }

    /// What a caller sees for the date `d`: its one-off notes in stored order,
    /// then the templates of its weekday in stored order, each marked completed
    /// exactly when its id was completed on `d`.
    pub open spec fn view_on(self, d: Date) -> Seq<Note> {
        self.notes[d] + self.repeating_notes[d.weekday()].map_values(
            |n: Note| n.with_completed(self.completed_repeating_notes[d].contains(n.id)),
        )
    }

    pub open spec fn with_notes(self, notes: Map<Date, Seq<Note>>) -> TodoModel {
        TodoModel {
            notes,
            repeating_notes: self.repeating_notes,
            completed_repeating_notes: self.completed_repeating_notes,
            next_id: self.next_id,
        }
    }

    pub open spec fn with_repeating_notes(self, repeating_notes: Map<DayOfWeek, Seq<Note>>) -> TodoModel {
        TodoModel {
            notes: self.notes,
            repeating_notes,
            completed_repeating_notes: self.completed_repeating_notes,
            next_id: self.next_id,
        }
    }

    pub open spec fn with_completed_ids(self, completed: Map<Date, Set<u64>>) -> TodoModel {
        TodoModel {
            notes: self.notes,
            repeating_notes: self.repeating_notes,
            completed_repeating_notes: completed,
            next_id: self.next_id,
        }
    }

    /// Adding a one-off note for the date `date` on the day numbered `today`.
    pub open spec fn add_note_op(
        self,
        date: UncheckedDate,
        today: int,
        title: String,
        description: String,
    ) -> (TodoModel, Result<u64, TodoError>) {
        let d = Date::of(date);
        if !d.is_valid() {
            (self, Err(TodoError::InvalidDate))
        } else if d.day_number() < today {
            (self, Err(TodoError::CantAddNoteEarlierThanToday))
        } else {
            let note = Note::fresh(self.next_id, title, description, false);
            let added = self.with_notes(self.notes.insert(d, self.notes[d].push(note)));
            (TodoModel { next_id: (self.next_id + 1) as u64, ..added }, Ok(self.next_id))
        }
    }

    /// Adding a repeating note for the weekday `w`.
    pub open spec fn add_repeating_note_op(
        self,
        w: DayOfWeek,
        title: String,
        description: String,
    ) -> (TodoModel, u64) {
        let note = Note::fresh(self.next_id, title, description, true);
        let added = self.with_repeating_notes(
            self.repeating_notes.insert(w, self.repeating_notes[w].push(note)),
        );
        (TodoModel { next_id: (self.next_id + 1) as u64, ..added }, self.next_id)
    }

    /// The first note of `s` with the id `id` gets a new title and description.
    pub open spec fn edited(s: Seq<Note>, id: u64, title: String, description: String) -> Seq<Note> {
        let i = first_index_of(s, id);
        s.update(i, s[i].with_text(title, description))
    }

    /// Editing a one-off note of the date `date` on the day numbered `today`.
    pub open spec fn edit_note_op(
        self,
        date: UncheckedDate,
        today: int,
        note_id: u64,
        title: String,
        description: String,
    ) -> (TodoModel, Result<(), TodoError>) {
        let d = Date::of(date);
        if !d.is_valid() {
            (self, Err(TodoError::InvalidDate))
        } else if d.day_number() <= today {
            (self, Err(TodoError::CantEditTodayOrEarlierNotes))
        } else if !has_id(self.notes[d], note_id) {
            (self, Err(TodoError::NoteIdDoesntExist))
        } else {
            let s = TodoModel::edited(self.notes[d], note_id, title, description);
            (self.with_notes(self.notes.insert(d, s)), Ok(()))
        }
    }

    /// Editing a repeating note of the weekday `w`.
    pub open spec fn edit_repeating_note_op(
        self,
        w: DayOfWeek,
        note_id: u64,
        title: String,
        description: String,
    ) -> (TodoModel, Result<(), TodoError>) {
        if !has_id(self.repeating_notes[w], note_id) {
            (self, Err(TodoError::NoteIdDoesntExist))
        } else {
            let s = TodoModel::edited(self.repeating_notes[w], note_id, title, description);
            (self.with_repeating_notes(self.repeating_notes.insert(w, s)), Ok(()))
        }
    }

    /// Deleting a one-off note of the date `date` on the day numbered `today`.
    pub open spec fn delete_note_op(self, date: UncheckedDate, today: int, note_id: u64) -> (
        TodoModel,
        Result<(), TodoError>,
    ) {
        let d = Date::of(date);
        if !d.is_valid() {
            (self, Err(TodoError::InvalidDate))
        } else if d.day_number() <= today {
            (self, Err(TodoError::CantDeleteTodayOrEarlierNotes))
        } else if !has_id(self.notes[d], note_id) {
            (self, Err(TodoError::NoteIdDoesntExist))
        } else {
            let s = self.notes[d].remove(first_index_of(self.notes[d], note_id));
            (self.with_notes(self.notes.insert(d, s)), Ok(()))
        }
    }

    /// Deleting a repeating note of the weekday `w`.
    pub open spec fn delete_repeating_note_op(self, w: DayOfWeek, note_id: u64) -> (
        TodoModel,
        Result<(), TodoError>,
    ) {
        if !has_id(self.repeating_notes[w], note_id) {
            (self, Err(TodoError::NoteIdDoesntExist))
        } else {
            let s = self.repeating_notes[w].remove(first_index_of(self.repeating_notes[w], note_id));
            (self.with_repeating_notes(self.repeating_notes.insert(w, s)), Ok(()))
        }
    }

    /// Completing a note on the date `date` on the day numbered `today`: a
    /// one-off note of that date is marked in place; otherwise a template of
    /// its weekday is recorded as completed on that date alone.
    pub open spec fn complete_note_op(self, date: UncheckedDate, today: int, note_id: u64) -> (
        TodoModel,
        Result<(), TodoError>,
    ) {
        let d = Date::of(date);
        if !d.is_valid() {
            (self, Err(TodoError::InvalidDate))
        } else if d.day_number() != today {
            (self, Err(TodoError::CantCompleteNoteNotFromToday))
        } else if has_id(self.notes[d], note_id) {
            let i = first_index_of(self.notes[d], note_id);
            let s = self.notes[d].update(i, self.notes[d][i].with_completed(true));
            (self.with_notes(self.notes.insert(d, s)), Ok(()))
        } else if has_id(self.repeating_notes[d.weekday()], note_id) {
            let ids = self.completed_repeating_notes[d].insert(note_id);
            (self.with_completed_ids(self.completed_repeating_notes.insert(d, ids)), Ok(()))
        } else {
            (self, Err(TodoError::NoteIdDoesntExist))
        }
    }

    pub open spec fn get_notes_op(self, date: UncheckedDate) -> Result<Seq<Note>, TodoError> {
        let d = Date::of(date);
        if !d.is_valid() {
            Err(TodoError::InvalidDate)
        } else {
            Ok(self.view_on(d))
        }
    }
}

pub open spec fn notes_at(m: Map<u32, Vec<Note>>, k: u32) -> Seq<Note> {
    if m.contains_key(k) {
        m[k]@
    } else {
        Seq::empty()
    }
}

pub open spec fn ids_at(m: Map<u32, Vec<u64>>, k: u32) -> Set<u64> {
    if m.contains_key(k) {
        m[k]@.to_set()
    } else {
        Set::empty()
    }
}

pub open spec fn date_key(d: Date) -> u32 {
    (d.year * 65536 + d.month * 256 + d.day) as u32
}

pub open spec fn weekday_key(w: DayOfWeek) -> u32 {
    w.index() as u32
}

proof fn lemma_date_key_injective(a: Date, b: Date)
    requires
        date_key(a) == date_key(b),
    ensures
        a == b,
{
}

fn date_key_of(d: &Date) -> (r: u32)
    ensures
        r == date_key(*d),
{
    d.year as u32 * 65536 + d.month as u32 * 256 + d.day as u32
}

fn weekday_key_of(w: &DayOfWeek) -> (r: u32)
    ensures
        r == weekday_key(*w),
{
    match w {
        DayOfWeek::Sun => 0,
        DayOfWeek::Mon => 1,
        DayOfWeek::Tue => 2,
        DayOfWeek::Wed => 3,
        DayOfWeek::Thu => 4,
        DayOfWeek::Fri => 5,
        DayOfWeek::Sat => 6,
    }
}

/// A copy of the notes stored under `k`.
fn copy_notes_at(m: &HashMap<u32, Vec<Note>>, k: u32) -> (r: Vec<Note>)
    ensures
        r@ == notes_at(m@, k),
{
    let mut out: Vec<Note> = Vec::new();
    match m.get(&k) {
        Some(v) => {
            let mut i: usize = 0;
            while i < v.len()
                invariant
                    i <= v@.len(),
                    out@ == v@.subrange(0, i as int),
                decreases v@.len() - i,
            {
                out.push(v[i].duplicate());
                i = i + 1;
            }
            assert(out@ =~= v@);
        },
        None => {},
    }
    out
}

fn contains_id(ids: &Vec<u64>, id: u64) -> (r: bool)
    ensures
        r == ids@.contains(id),
{
    let mut i: usize = 0;
    while i < ids.len()
        invariant
            i <= ids@.len(),
            forall|j: int| 0 <= j < i ==> ids@[j] != id,
        decreases ids@.len() - i,
    {
        if ids[i] == id {
            return true;
        }
        i = i + 1;
    }
    false
}

/// Whether the ids stored under `k` hold `id`.
fn completed_at(m: &HashMap<u32, Vec<u64>>, k: u32, id: u64) -> (r: bool)
    ensures
        r == ids_at(m@, k).contains(id),
{
    match m.get(&k) {
        Some(v) => contains_id(v, id),
        None => false,
    }
}

/// The position of the first note of `notes` with the id `id`, if any.
fn find_note(notes: &Vec<Note>, id: u64) -> (r: Option<usize>)
    ensures
        r matches Some(i) ==> i == first_index_of(notes@, id) && is_first_with_id(notes@, id, i as int),
        r is None <==> !has_id(notes@, id),
{
    let mut i: usize = 0;
    while i < notes.len()
        invariant
            i <= notes@.len(),
            forall|j: int| 0 <= j < i ==> notes@[j].id != id,
        decreases notes@.len() - i,
    {
        if notes[i].id == id {
            proof {
                assert(is_first_with_id(notes@, id, i as int));
                let c = first_index_of(notes@, id);
                if c < i {
                    assert(notes@[c].id != id);
                } else if c > i {
                    assert(notes@[i as int].id != id);
                }
            }
            return Some(i);
        }
        i = i + 1;
    }
    None
}

fn take_notes(m: &mut HashMap<u32, Vec<Note>>, k: u32) -> (r: Vec<Note>)
    ensures
        final(m)@ == old(m)@.remove(k),
        r@ == notes_at(old(m)@, k),
{
    match m.remove(&k) {
        Some(v) => v,
        None => Vec::new(),
    }
}

fn take_ids(m: &mut HashMap<u32, Vec<u64>>, k: u32) -> (r: Vec<u64>)
    ensures
        final(m)@ == old(m)@.remove(k),
        r@.to_set() == ids_at(old(m)@, k),
{
    match m.remove(&k) {
        Some(v) => v,
        None => {
            let v: Vec<u64> = Vec::new();
            assert(v@.to_set() =~= Set::empty());
            v
        },
    }
}

proof fn lemma_put_date(old_m: Map<u32, Vec<Note>>, new_m: Map<u32, Vec<Note>>, d: Date, v: Seq<Note>)
    requires
        new_m.contains_key(date_key(d)),
        new_m[date_key(d)]@ == v,
        forall|k: u32| k != date_key(d) ==> notes_at(new_m, k) == notes_at(old_m, k),
    ensures
        Map::new(|x: Date| true, |x: Date| notes_at(new_m, date_key(x))) =~= Map::new(
            |x: Date| true,
            |x: Date| notes_at(old_m, date_key(x)),
        ).insert(d, v),
{
    assert forall|x: Date| x != d implies date_key(x) != date_key(d) by {
        if date_key(x) == date_key(d) {
            lemma_date_key_injective(x, d);
        }
    }
}

proof fn lemma_put_weekday(
    old_m: Map<u32, Vec<Note>>,
    new_m: Map<u32, Vec<Note>>,
    w: DayOfWeek,
    v: Seq<Note>,
)
    requires
        new_m.contains_key(weekday_key(w)),
        new_m[weekday_key(w)]@ == v,
        forall|k: u32| k != weekday_key(w) ==> notes_at(new_m, k) == notes_at(old_m, k),
    ensures
        Map::new(|x: DayOfWeek| true, |x: DayOfWeek| notes_at(new_m, weekday_key(x))) =~= Map::new(
            |x: DayOfWeek| true,
            |x: DayOfWeek| notes_at(old_m, weekday_key(x)),
        ).insert(w, v),
{
}

proof fn lemma_put_ids(old_m: Map<u32, Vec<u64>>, new_m: Map<u32, Vec<u64>>, d: Date, v: Set<u64>)
    requires
        new_m.contains_key(date_key(d)),
        new_m[date_key(d)]@.to_set() == v,
        forall|k: u32| k != date_key(d) ==> ids_at(new_m, k) == ids_at(old_m, k),
    ensures
        Map::new(|x: Date| true, |x: Date| ids_at(new_m, date_key(x))) =~= Map::new(
            |x: Date| true,
            |x: Date| ids_at(old_m, date_key(x)),
        ).insert(d, v),
{
    assert forall|x: Date| x != d implies date_key(x) != date_key(d) by {
        if date_key(x) == date_key(d) {
            lemma_date_key_injective(x, d);
        }
    }
}

/// The notes of one account: one-off notes by date, repeating templates by
/// weekday, and the ids of templates completed on each date.
pub struct Todo {
    notes: HashMap<u32, Vec<Note>>,
    repeating_notes: HashMap<u32, Vec<Note>>,
    completed_repeating_notes: HashMap<u32, Vec<u64>>,
    note_id_counter: u64,
}

impl View for Todo {
    type V = TodoModel;

    closed spec fn view(&self) -> TodoModel {
        TodoModel {
            notes: Map::new(|d: Date| true, |d: Date| notes_at(self.notes@, date_key(d))),
            repeating_notes: Map::new(
                |w: DayOfWeek| true,
                |w: DayOfWeek| notes_at(self.repeating_notes@, weekday_key(w)),
            ),
            completed_repeating_notes: Map::new(
                |d: Date| true,
                |d: Date| ids_at(self.completed_repeating_notes@, date_key(d)),
            ),
            next_id: self.note_id_counter,
        }
    }
}

impl Todo {
    pub fn new() -> (r: Todo)
        ensures
            r@ == TodoModel::empty(),
            r@.wf(),
    {
        let r = Todo {
            notes: HashMap::new(),
            repeating_notes: HashMap::new(),
            completed_repeating_notes: HashMap::new(),
            note_id_counter: 0,
        };
        assert(r@.notes =~= TodoModel::empty().notes);
        assert(r@.repeating_notes =~= TodoModel::empty().repeating_notes);
        assert(r@.completed_repeating_notes =~= TodoModel::empty().completed_repeating_notes);
        r
    }

    /// The id the next added note will get.
    pub fn next_note_id(&self) -> (r: u64)
        ensures
            r == self@.next_id,
    {
        self.note_id_counter
    }

    /// The notes shown for a date: its one-off notes, then the repeating
    /// notes of its weekday marked with their completion on that date.
    pub fn get_notes(&self, unchecked_date: UncheckedDate) -> (r: Result<Vec<Note>, TodoError>)
        ensures
            r matches Ok(v) ==> self@.get_notes_op(unchecked_date) == Ok::<Seq<Note>, TodoError>(v@),
            r matches Err(e) ==> self@.get_notes_op(unchecked_date) == Err::<Seq<Note>, TodoError>(e),
    {
        let date = match Date::from_unchecked(unchecked_date) {
            Ok(d) => d,
            Err(e) => return Err(e),
        };
        let day_of_week = match date.day_of_week() {
            Ok(w) => w,
            Err(e) => return Err(e),
        };
        let key = date_key_of(&date);
        let mut out = copy_notes_at(&self.notes, key);
        let templates = copy_notes_at(&self.repeating_notes, weekday_key_of(&day_of_week));
        let ghost one_off = out@;
        let ghost done = self@.completed_repeating_notes[date];
        let mut i: usize = 0;
        while i < templates.len()
            invariant
                i <= templates@.len(),
                done == ids_at(self.completed_repeating_notes@, key),
                out@ == one_off + templates@.subrange(0, i as int).map_values(
                    |n: Note| n.with_completed(done.contains(n.id)),
                ),
            decreases templates@.len() - i,
        {
            let t = &templates[i];
            let completed = completed_at(&self.completed_repeating_notes, key, t.id);
            out.push(
                Note {
                    id: t.id,
                    completed,
                    title: t.title.clone(),
                    description: t.description.clone(),
                    is_repeating: t.is_repeating,
                },
            );
            i = i + 1;
            assert(templates@.subrange(0, i as int) =~= templates@.subrange(0, i - 1).push(
                templates@[i - 1],
            ));
            assert(out@ =~= one_off + templates@.subrange(0, i as int).map_values(
                |n: Note| n.with_completed(done.contains(n.id)),
            ));
        }
        assert(templates@.subrange(0, templates@.len() as int) =~= templates@);
        assert(out@ =~= self@.view_on(date));
        Ok(out)
    }

    /// The repeating templates of a weekday, as stored.
    pub fn get_repeating_notes(&self, day_of_week: DayOfWeek) -> (r: Result<Vec<Note>, TodoError>)
        ensures
            r matches Ok(v) && v@ == self@.repeating_notes[day_of_week],
    {
        Ok(copy_notes_at(&self.repeating_notes, weekday_key_of(&day_of_week)))
    }

    /// Adds a one-off note for a date that is today or later and returns its id.
    pub fn add_note(
        &mut self,
        now: u64,
        unchecked_date: UncheckedDate,
        title: String,
        description: String,
    ) -> (r: Result<u64, TodoError>)
        requires
            old(self)@.wf(),
            now <= MAX_TIMESTAMP_MILLIS,
            old(self)@.next_id < u64::MAX,
        ensures
            final(self)@.wf(),
            (final(self)@, r) == old(self)@.add_note_op(
                unchecked_date,
                day_number_at(now as int),
                title,
                description,
            ),
    {
        let date = match Date::from_unchecked(unchecked_date) {
            Ok(d) => d,
            Err(e) => return Err(e),
        };
        if date.compare(self.today(now)) < 0 {
            return Err(TodoError::CantAddNoteEarlierThanToday);
        }
        let key = date_key_of(&date);
        let mut notes = take_notes(&mut self.notes, key);
        let note_id = self.add_any_note(&mut notes, title, description, false);
        let ghost stored = notes@;
        self.notes.insert(key, notes);
        proof {
            lemma_put_date(old(self).notes@, self.notes@, date, stored);
            let expected = old(self)@.add_note_op(
                unchecked_date,
                day_number_at(now as int),
                title,
                description,
            ).0;
            assert(self@.notes =~= expected.notes);
            assert(self@.repeating_notes =~= expected.repeating_notes);
            assert(self@.completed_repeating_notes =~= expected.completed_repeating_notes);
        }
        Ok(note_id)
    }

    /// Adds a repeating note for a weekday and returns its id.
    pub fn add_repeating_note(
        &mut self,
        day_of_week: DayOfWeek,
        title: String,
        description: String,
    ) -> (r: u64)
        requires
            old(self)@.wf(),
            old(self)@.next_id < u64::MAX,
        ensures
            final(self)@.wf(),
            (final(self)@, r) == old(self)@.add_repeating_note_op(day_of_week, title, description),
    {
        let key = weekday_key_of(&day_of_week);
        let mut notes = take_notes(&mut self.repeating_notes, key);
        let note_id = self.add_any_note(&mut notes, title, description, true);
        let ghost stored = notes@;
        self.repeating_notes.insert(key, notes);
        proof {
            lemma_put_weekday(old(self).repeating_notes@, self.repeating_notes@, day_of_week, stored);
            let expected = old(self)@.add_repeating_note_op(day_of_week, title, description).0;
            assert(self@.notes =~= expected.notes);
            assert(self@.repeating_notes =~= expected.repeating_notes);
            assert(self@.completed_repeating_notes =~= expected.completed_repeating_notes);
        }
        note_id
    }

    /// Edits the title and description of a one-off note of a date strictly
    /// after today.
    pub fn edit_note(
        &mut self,
        now: u64,
        unchecked_date: UncheckedDate,
        note_id: u64,
        title: String,
        description: String,
    ) -> (r: Result<(), TodoError>)
        requires
            old(self)@.wf(),
            now <= MAX_TIMESTAMP_MILLIS,
        ensures
            final(self)@.wf(),
            (final(self)@, r) == old(self)@.edit_note_op(
                unchecked_date,
                day_number_at(now as int),
                note_id,
                title,
                description,
            ),
    {
        let date = match Date::from_unchecked(unchecked_date) {
            Ok(d) => d,
            Err(e) => return Err(e),
        };
        if date.compare(self.today(now)) <= 0 {
            return Err(TodoError::CantEditTodayOrEarlierNotes);
        }
        let key = date_key_of(&date);
        let mut notes = take_notes(&mut self.notes, key);
        let r = Self::edit_any_note(&mut notes, note_id, title, description);
        let ghost stored = notes@;
        self.notes.insert(key, notes);
        proof {
            lemma_put_date(old(self).notes@, self.notes@, date, stored);
            let expected = old(self)@.edit_note_op(
                unchecked_date,
                day_number_at(now as int),
                note_id,
                title,
                description,
            ).0;
            assert(self@.notes =~= expected.notes);
            assert(self@.repeating_notes =~= expected.repeating_notes);
            assert(self@.completed_repeating_notes =~= expected.completed_repeating_notes);
            if has_id(old(self)@.notes[date], note_id) {
                let s = old(self)@.notes[date];
                let j = choose|j: int| 0 <= j < s.len() && s[j].id == note_id;
                lemma_first_index(s, note_id, j);
            }
        }
        r
    }

    /// Edits the title and description of a repeating note of a weekday.
    pub fn edit_repeating_note(
        &mut self,
        day_of_week: DayOfWeek,
        note_id: u64,
        title: String,
        description: String,
    ) -> (r: Result<(), TodoError>)
        requires
            old(self)@.wf(),
        ensures
            final(self)@.wf(),
            (final(self)@, r) == old(self)@.edit_repeating_note_op(
                day_of_week,
                note_id,
                title,
                description,
            ),
    {
        let key = weekday_key_of(&day_of_week);
        let mut notes = take_notes(&mut self.repeating_notes, key);
        let r = Self::edit_any_note(&mut notes, note_id, title, description);
        let ghost stored = notes@;
        self.repeating_notes.insert(key, notes);
        proof {
            lemma_put_weekday(old(self).repeating_notes@, self.repeating_notes@, day_of_week, stored);
            let expected = old(self)@.edit_repeating_note_op(
                day_of_week,
                note_id,
                title,
                description,
            ).0;
            assert(self@.notes =~= expected.notes);
            assert(self@.repeating_notes =~= expected.repeating_notes);
            assert(self@.completed_repeating_notes =~= expected.completed_repeating_notes);
            if has_id(old(self)@.repeating_notes[day_of_week], note_id) {
                let s = old(self)@.repeating_notes[day_of_week];
                let j = choose|j: int| 0 <= j < s.len() && s[j].id == note_id;
                lemma_first_index(s, note_id, j);
            }
        }
        r
    }

    /// Deletes a one-off note of a date strictly after today.
    pub fn delete_note(&mut self, now: u64, unchecked_date: UncheckedDate, note_id: u64) -> (r:
        Result<(), TodoError>)
        requires
            old(self)@.wf(),
            now <= MAX_TIMESTAMP_MILLIS,
        ensures
            final(self)@.wf(),
            (final(self)@, r) == old(self)@.delete_note_op(
                unchecked_date,
                day_number_at(now as int),
                note_id,
            ),
    {
        let date = match Date::from_unchecked(unchecked_date) {
            Ok(d) => d,
            Err(e) => return Err(e),
        };
        if date.compare(self.today(now)) <= 0 {
            return Err(TodoError::CantDeleteTodayOrEarlierNotes);
        }
        let key = date_key_of(&date);
        let mut notes = take_notes(&mut self.notes, key);
        let r = Self::delete_any_note(&mut notes, note_id);
        let ghost stored = notes@;
        self.notes.insert(key, notes);
        proof {
            lemma_put_date(old(self).notes@, self.notes@, date, stored);
            let expected = old(self)@.delete_note_op(
                unchecked_date,
                day_number_at(now as int),
                note_id,
            ).0;
            if has_id(old(self)@.notes[date], note_id) {
                let s = old(self)@.notes[date];
                let j = choose|j: int| 0 <= j < s.len() && s[j].id == note_id;
                lemma_first_index(s, note_id, j);
                lemma_removed_positions(s, first_index_of(s, note_id));
            }
            assert(self@.notes =~= expected.notes);
            assert(self@.repeating_notes =~= expected.repeating_notes);
            assert(self@.completed_repeating_notes =~= expected.completed_repeating_notes);
        }
        r
    }

    /// Deletes a repeating note of a weekday.
    pub fn delete_repeating_note(&mut self, day_of_week: DayOfWeek, note_id: u64) -> (r: Result<
        (),
        TodoError,
    >)
        requires
            old(self)@.wf(),
        ensures
            final(self)@.wf(),
            (final(self)@, r) == old(self)@.delete_repeating_note_op(day_of_week, note_id),
    {
        let key = weekday_key_of(&day_of_week);
        let mut notes = take_notes(&mut self.repeating_notes, key);
        let r = Self::delete_any_note(&mut notes, note_id);
        let ghost stored = notes@;
        self.repeating_notes.insert(key, notes);
        proof {
            lemma_put_weekday(old(self).repeating_notes@, self.repeating_notes@, day_of_week, stored);
            let expected = old(self)@.delete_repeating_note_op(day_of_week, note_id).0;
            if has_id(old(self)@.repeating_notes[day_of_week], note_id) {
                let s = old(self)@.repeating_notes[day_of_week];
                let j = choose|j: int| 0 <= j < s.len() && s[j].id == note_id;
                lemma_first_index(s, note_id, j);
                lemma_removed_positions(s, first_index_of(s, note_id));
            }
            assert(self@.notes =~= expected.notes);
            assert(self@.repeating_notes =~= expected.repeating_notes);
            assert(self@.completed_repeating_notes =~= expected.completed_repeating_notes);
        }
        r
    }

    /// Completes a note on today's date: a one-off note of that date is marked
    /// completed; otherwise a repeating note of its weekday is recorded as
    /// completed on that date only.
    pub fn complete_note(&mut self, now: u64, unchecked_date: UncheckedDate, note_id: u64) -> (r:
        Result<(), TodoError>)
        requires
            old(self)@.wf(),
            now <= MAX_TIMESTAMP_MILLIS,
        ensures
            final(self)@.wf(),
            (final(self)@, r) == old(self)@.complete_note_op(
                unchecked_date,
                day_number_at(now as int),
                note_id,
            ),
    {
        let date = match Date::from_unchecked(unchecked_date) {
            Ok(d) => d,
            Err(e) => return Err(e),
        };
        let day_of_week = match date.day_of_week() {
            Ok(w) => w,
            Err(e) => return Err(e),
        };
        if !self.is_today(now, date) {
            return Err(TodoError::CantCompleteNoteNotFromToday);
        }
        let ghost expected = old(self)@.complete_note_op(
            unchecked_date,
            day_number_at(now as int),
            note_id,
        ).0;
        let key = date_key_of(&date);
        let found = match self.notes.get(&key) {
            Some(v) => find_note(v, note_id),
            None => None,
        };
        match found {
            Some(i) => {
                let mut notes = take_notes(&mut self.notes, key);
                let done = Note {
                    id: notes[i].id,
                    completed: true,
                    title: notes[i].title.clone(),
                    description: notes[i].description.clone(),
                    is_repeating: notes[i].is_repeating,
                };
                notes[i] = done;
                let ghost stored = notes@;
                self.notes.insert(key, notes);
                proof {
                    lemma_put_date(old(self).notes@, self.notes@, date, stored);
                    assert(self@.notes =~= expected.notes);
                    assert(self@.repeating_notes =~= expected.repeating_notes);
                    assert(self@.completed_repeating_notes =~= expected.completed_repeating_notes);
                }
                Ok(())
            },
            None => {
                let in_templates = match self.repeating_notes.get(&weekday_key_of(&day_of_week)) {
                    Some(v) => find_note(v, note_id).is_some(),
                    None => false,
                };
                if !in_templates {
                    return Err(TodoError::NoteIdDoesntExist);
                }
                let mut ids = take_ids(&mut self.completed_repeating_notes, key);
                let ghost before = ids@;
                if !contains_id(&ids, note_id) {
                    ids.push(note_id);
                    proof {
                        before.lemma_push_to_set_commute(note_id);
                    }
                } else {
                    assert(ids@.to_set() =~= ids@.to_set().insert(note_id));
                }
                let ghost stored = ids@.to_set();
                self.completed_repeating_notes.insert(key, ids);
                proof {
                    lemma_put_ids(
                        old(self).completed_repeating_notes@,
                        self.completed_repeating_notes@,
                        date,
                        stored,
                    );
                    assert(self@.notes =~= expected.notes);
                    assert(self@.repeating_notes =~= expected.repeating_notes);
                    assert(self@.completed_repeating_notes =~= expected.completed_repeating_notes);
                }
                Ok(())
            },
        }
    }

    /// Appends a new note with the next id to `notes` and advances the counter.
    fn add_any_note(
        &mut self,
        notes: &mut Vec<Note>,
        title: String,
        description: String,
        is_repeating: bool,
    ) -> (r: u64)
        requires
            old(self).note_id_counter < u64::MAX,
        ensures
            r == old(self).note_id_counter,
            final(self).note_id_counter == r + 1,
            final(self).notes@ == old(self).notes@,
            final(self).repeating_notes@ == old(self).repeating_notes@,
            final(self).completed_repeating_notes@ == old(self).completed_repeating_notes@,
            final(notes)@ == old(notes)@.push(Note::fresh(r, title, description, is_repeating)),
    {
        let note_id = self.note_id_counter;
        let note = Note::new(note_id, title, description, is_repeating);
        notes.push(note);
        self.note_id_counter = note_id + 1;
        note_id
    }

    /// Gives the first note of `notes` with the id `note_id` a new title and
    /// description.
    fn edit_any_note(
        notes: &mut Vec<Note>,
        note_id: u64,
        title: String,
        description: String,
    ) -> (r: Result<(), TodoError>)
        ensures
            has_id(old(notes)@, note_id) ==> r == Ok::<(), TodoError>(()) && final(notes)@ == TodoModel::edited(
                old(notes)@,
                note_id,
                title,
                description,
            ),
            !has_id(old(notes)@, note_id) ==> r == Err::<(), TodoError>(TodoError::NoteIdDoesntExist)
                && final(notes)@ == old(notes)@,
    {
        match find_note(notes, note_id) {
            Some(i) => {
                let edited = Note {
                    id: notes[i].id,
                    completed: notes[i].completed,
                    title,
                    description,
                    is_repeating: notes[i].is_repeating,
                };
                notes[i] = edited;
                Ok(())
            },
            None => Err(TodoError::NoteIdDoesntExist),
        }
    }

    /// Removes the first note of `notes` with the id `note_id`.
    fn delete_any_note(notes: &mut Vec<Note>, note_id: u64) -> (r: Result<(), TodoError>)
        ensures
            has_id(old(notes)@, note_id) ==> r == Ok::<(), TodoError>(()) && final(notes)@ == old(notes)@.remove(
                first_index_of(old(notes)@, note_id),
            ),
            !has_id(old(notes)@, note_id) ==> r == Err::<(), TodoError>(TodoError::NoteIdDoesntExist)
                && final(notes)@ == old(notes)@,
    {
        match find_note(notes, note_id) {
            Some(i) => {
                notes.remove(i);
                Ok(())
            },
            None => Err(TodoError::NoteIdDoesntExist),
        }
    }

    /// The calendar day, in UTC, of the instant `now` (milliseconds since
    /// 1970-01-01 00:00 UTC).
    pub fn today(&self, now: u64) -> (r: Date)
        requires
            now <= MAX_TIMESTAMP_MILLIS,
        ensures
            r.is_valid(),
            r.day_number() == day_number_at(now as int),
    {
        Date::from_timestamp(now)
    }

    /// Whether `date` is the day of the instant `now`.
    pub fn is_today(&self, now: u64, date: Date) -> (r: bool)
        requires
            now <= MAX_TIMESTAMP_MILLIS,
        ensures
            r == (date.is_valid() && date.day_number() == day_number_at(now as int)),
    {
        let today = self.today(now);
        proof {
            if date.is_valid() && date.day_number() == day_number_at(now as int) {
                crate::date::lemma_day_number_injective(date, today);
            }
        }
        today == date
    }
}

} // verus!
