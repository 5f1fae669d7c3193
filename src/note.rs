use vstd::prelude::*;

verus! {

/// A note: a one-off note lives under a date, a repeating one under a weekday.
#[derive(Debug, Clone, Default, PartialEq)]
pub struct Note {
    pub id: u64,
    pub completed: bool,
    pub title: String,
    pub description: String,
    pub is_repeating: bool,
}

impl Note {
    pub open spec fn fresh(id: u64, title: String, description: String, is_repeating: bool) -> Note {
        Note { id, completed: false, title, description, is_repeating }
    }

    /// The same note with its completion flag set to `completed`.
    pub open spec fn with_completed(self, completed: bool) -> Note {
        Note {
            id: self.id,
            completed,
            title: self.title,
            description: self.description,
            is_repeating: self.is_repeating,
        }
    }

    /// The same note with a new title and description.
    pub open spec fn with_text(self, title: String, description: String) -> Note {
        Note {
            id: self.id,
            completed: self.completed,
            title,
            description,
            is_repeating: self.is_repeating,
        }
    }

    pub fn new(id: u64, title: String, description: String, is_repeating: bool) -> (r: Note)
        ensures
            r == Note::fresh(id, title, description, is_repeating),
    {
        Note { id, title, description, completed: false, is_repeating }
    }

    /// A copy of this note, field for field.
    pub fn duplicate(&self) -> (r: Note)
        ensures
            r == *self,
    {
        Note {
            id: self.id,
            completed: self.completed,
            title: self.title.clone(),
            description: self.description.clone(),
            is_repeating: self.is_repeating,
        }
    }
}

} // verus!
