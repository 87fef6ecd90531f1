//! The render adapter: a pure mapping from browser state to a frame model —
//! the list rows, the highlighted row, the preview text and the footer. The
//! surrounding binary paints the model with its terminal widgets; nothing
//! here touches a terminal.

use crate::browser::BrowserState;
use crate::text::{display_timestamp, display_ts};
use vstd::prelude::*;
use vstd::string::StringExecFns;

verus! {

/// One row of the list pane: a title and its modification timestamp in
/// display form.
pub struct FrameRow {
    pub title: String,
    pub modified: String,
}

/// A drawn frame, as data: the list pane rows, which row is highlighted, the
/// preview pane text and the footer line.
pub struct Frame {
    pub rows: Vec<FrameRow>,
    pub selected: Option<usize>,
    pub preview: String,
    pub footer: String,
}

/// Maps the browser state to the frame that shows it: one row per note in
/// snapshot order, the selected row highlighted, the selected note's content
/// previewed, and the key bindings in the footer.
pub fn render(state: &BrowserState) -> (f: Frame)
    requires
        state.wf(),
    ensures
        f.rows@.len() == state.notes@.len(),
        forall|i: int|
            0 <= i < state.notes@.len() ==> (#[trigger] f.rows@[i]).title@
                == state.notes@[i]@.title && f.rows@[i].modified@ == display_ts(
                state.notes@[i]@.modified,
            ),
        f.selected == state.selection,
        state.selection matches Some(s) ==> f.preview@ == state.notes@[s as int]@.content,
        state.selection is None ==> f.preview@.len() == 0,
        f.footer@ == "Ctrl-Q: Quit | Enter: Edit | Ctrl-N: New | Up/Down: Navigate"@,
{
    let mut rows: Vec<FrameRow> = Vec::new();
    let mut i: usize = 0;
    while i < state.notes.len()
        invariant
            i <= state.notes@.len(),
            rows@.len() == i,
            forall|t: int|
                0 <= t < i ==> (#[trigger] rows@[t]).title@ == state.notes@[t]@.title
                    && rows@[t].modified@ == display_ts(state.notes@[t]@.modified),
        decreases state.notes@.len() - i,
    {
        let row = FrameRow {
            title: state.notes[i].title.clone(),
            modified: display_timestamp(state.notes[i].modification_date.as_str()),
        };
        rows.push(row);
        i += 1;
    }
    let preview: String = match state.selection {
        Some(s) => state.notes[s].content.clone(),
        None => String::new(),
    };
    Frame {
        rows,
        selected: state.selection,
        preview,
        footer: String::from_str("Ctrl-Q: Quit | Enter: Edit | Ctrl-N: New | Up/Down: Navigate"),
    }
}

} // verus!
