//! The browser state machine: an ordered snapshot of note summaries, one
//! selection cursor, and the rule that turns a key event into a selection
//! change or into a request for outside work. The surrounding binary runs the
//! loop: it draws frames, reads key events, performs the requested work and
//! hands a fresh snapshot back through [`BrowserState::refresh`].

use crate::note::Note;
use vstd::prelude::*;

verus! {

/// A key event, already decoded from the terminal.
#[derive(Clone, Copy, Debug, PartialEq, Eq, Structural)]
pub enum BrowserEvent {
    /// The quit binding: end the session.
    Quit,
    /// The new-note binding: ask for a title and create a note.
    NewNote,
    /// Move the selection down, wrapping to the first entry.
    Down,
    /// Move the selection up, wrapping to the last entry.
    Up,
    /// Open the selected note for editing.
    Confirm,
    /// Any other key.
    Other,
}

/// What the loop around the state machine is asked to do next.
#[derive(Debug)]
pub enum BrowserAction {
    /// End the session.
    Exit,
    /// Prompt for a title and run the create flow, then refresh.
    PromptNew,
    /// Run the edit flow on this title, then refresh.
    OpenNote(String),
    /// Draw the next frame and wait for the next key.
    Redraw,
}

/// The selection after one "down": the next entry, wrapping to the first.
pub open spec fn down_sel(sel: int, len: int) -> int {
    if sel + 1 >= len {
        0
    } else {
        sel + 1
    }
}

/// The selection after one "up": the previous entry, wrapping to the last.
pub open spec fn up_sel(sel: int, len: int) -> int {
    if sel == 0 {
        len - 1
    } else {
        sel - 1
    }
}

/// The selection after `n` presses of "down".
pub open spec fn down_iter(sel: int, len: int, n: nat) -> int
    decreases n,
{
    if n == 0 {
        sel
    } else {
        down_sel(down_iter(sel, len, (n - 1) as nat), len)
    }
}

/// The selection after `n` presses of "up".
pub open spec fn up_iter(sel: int, len: int, n: nat) -> int
    decreases n,
{
    if n == 0 {
        sel
    } else {
        up_sel(up_iter(sel, len, (n - 1) as nat), len)
    }
}

proof fn lemma_down_iter_shift(sel: int, len: int, n: nat)
    requires
        0 <= sel < len,
        n <= len,
    ensures
        down_iter(sel, len, n) == if sel + n < len {
            sel + n
        } else {
            sel + n - len
        },
    decreases n,
{
    if n > 0 {
        lemma_down_iter_shift(sel, len, (n - 1) as nat);
    }
}

proof fn lemma_up_iter_shift(sel: int, len: int, n: nat)
    requires
        0 <= sel < len,
        n <= len,
    ensures
        up_iter(sel, len, n) == if sel - n >= 0 {
            sel - n
        } else {
            sel - n + len
        },
    decreases n,
{
    if n > 0 {
        lemma_up_iter_shift(sel, len, (n - 1) as nat);
    }
}

/// Wrap-around correctness: with a non-empty list, pressing "down" once per
/// entry returns the selection to where it started, and so does "up".
pub proof fn lemma_selection_wraps(sel: int, len: int)
    requires
        0 <= sel < len,
    ensures
        down_iter(sel, len, len as nat) == sel,
        up_iter(sel, len, len as nat) == sel,
{
    lemma_down_iter_shift(sel, len, len as nat);
    lemma_up_iter_shift(sel, len, len as nat);
}

/// The in-memory browsing state: the snapshot of notes as last loaded from
/// the store, and the selection cursor.
pub struct BrowserState {
    pub notes: Vec<Note>,
    pub selection: Option<usize>,
}

impl BrowserState {
    /// The cursor points inside the snapshot exactly when the snapshot is
    /// non-empty.
    pub open spec fn wf(self) -> bool {
        &&& self.notes@.len() == 0 <==> self.selection is None
        &&& self.selection matches Some(i) ==> i < self.notes@.len()
    }

    /// A browser over an empty snapshot.
    pub fn new() -> (r: BrowserState)
        ensures
            r.wf(),
            r.notes@.len() == 0,
            r.selection is None,
    {
        BrowserState { notes: Vec::new(), selection: None }
    }

    /// Replaces the snapshot wholesale, as after any outside work: the old
    /// in-memory view is discarded and the selection is reset to the top.
    pub fn refresh(&mut self, notes: Vec<Note>)
        ensures
            final(self).wf(),
            final(self).notes@ == notes@,
            notes@.len() > 0 ==> final(self).selection == Some(0usize),
            notes@.len() == 0 ==> final(self).selection is None,
    {
        let sel: Option<usize> = if notes.is_empty() {
            None
        } else {
            Some(0)
        };
        self.notes = notes;
        self.selection = sel;
    }

    /// Re-synchronizes the browser with the store after outside work may have
    /// changed it: the snapshot becomes the store's own listing — every
    /// record, most recently modified first — and the selection is reset.
    /// Nothing of the old in-memory view survives.
    pub fn resync(&mut self, store: &crate::store::NoteStore)
        ensures
            final(self).wf(),
            crate::store::views_of(final(self).notes@).to_multiset() == store@.to_multiset(),
            crate::store::sorted_desc(crate::store::views_of(final(self).notes@)),
            store@.len() > 0 ==> final(self).selection == Some(0usize),
            store@.len() == 0 ==> final(self).selection is None,
    {
        let snapshot = store.load_all();
        proof {
            broadcast use vstd::seq_lib::group_to_multiset_ensures;

            assert(crate::store::views_of(snapshot@).to_multiset().len() == crate::store::views_of(
                snapshot@,
            ).len());
            assert(store@.to_multiset().len() == store@.len());
        }
        self.refresh(snapshot);
    }

    /// One transition of the state machine: turns a key event into a new
    /// selection and the action the loop must take. The snapshot itself is
    /// never changed here.
    pub fn step(&mut self, ev: BrowserEvent) -> (r: BrowserAction)
        requires
            old(self).wf(),
        ensures
            final(self).wf(),
            final(self).notes@ == old(self).notes@,
            ev is Quit ==> r is Exit && final(self).selection == old(self).selection,
            ev is NewNote ==> r is PromptNew && final(self).selection == old(self).selection,
            ev is Down && old(self).notes@.len() > 0 ==> r is Redraw && final(self).selection
                == Some(
                down_sel(old(self).selection->0 as int, old(self).notes@.len() as int) as usize,
            ),
            ev is Up && old(self).notes@.len() > 0 ==> r is Redraw && final(self).selection
                == Some(up_sel(old(self).selection->0 as int, old(self).notes@.len() as int) as usize),
            (ev is Down || ev is Up) && old(self).notes@.len() == 0 ==> r is Redraw
                && final(self).selection == old(self).selection,
            ev is Confirm ==> (old(self).selection matches Some(i) ==> (r matches
                BrowserAction::OpenNote(t) && t@ == old(self).notes@[i as int]@.title)
                && final(self).selection == old(self).selection),
            ev is Confirm && old(self).selection is None ==> r is Redraw && final(self).selection
                == old(self).selection,
            ev is Other ==> r is Redraw && final(self).selection == old(self).selection,
    {
        match ev {
            BrowserEvent::Quit => BrowserAction::Exit,
            BrowserEvent::NewNote => BrowserAction::PromptNew,
            BrowserEvent::Down => {
                if self.notes.len() > 0 {
                    let len = self.notes.len();
                    let next: usize = match self.selection {
                        Some(i) => if i + 1 >= len {
                            0
                        } else {
                            i + 1
                        },
                        None => 0,
                    };
                    self.selection = Some(next);
                }
                BrowserAction::Redraw
            },
            BrowserEvent::Up => {
                if self.notes.len() > 0 {
                    let len = self.notes.len();
                    let prev: usize = match self.selection {
                        Some(i) => if i == 0 {
                            len - 1
                        } else {
                            i - 1
                        },
                        None => 0,
                    };
                    self.selection = Some(prev);
                }
                BrowserAction::Redraw
            },
            BrowserEvent::Confirm => {
                match self.selection {
                    Some(i) => BrowserAction::OpenNote(self.notes[i].title.clone()),
                    None => BrowserAction::Redraw,
                }
            },
            BrowserEvent::Other => BrowserAction::Redraw,
        }
    }
}

} // verus!
