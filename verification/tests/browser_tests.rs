use notes::browser::{BrowserAction, BrowserEvent, BrowserState};
use notes::note::Note;
use notes::store::NoteStore;

fn three_notes() -> Vec<Note> {
    vec![
        Note::new(
            "A".to_string(),
            "aa".to_string(),
            "2024-01-03T00:00:00+00:00".to_string(),
        ),
        Note::new(
            "B".to_string(),
            "bb".to_string(),
            "2024-01-02T00:00:00+00:00".to_string(),
        ),
        Note::new(
            "C".to_string(),
            "cc".to_string(),
            "2024-01-01T00:00:00+00:00".to_string(),
        ),
    ]
}

#[test]
fn down_wraps_around() {
    let mut b = BrowserState::new();
    b.refresh(three_notes());
    assert_eq!(b.selection, Some(0));
    b.step(BrowserEvent::Down);
    assert_eq!(b.selection, Some(1));
    b.step(BrowserEvent::Down);
    assert_eq!(b.selection, Some(2));
    b.step(BrowserEvent::Down);
    assert_eq!(b.selection, Some(0));
}

#[test]
fn up_wraps_around() {
    let mut b = BrowserState::new();
    b.refresh(three_notes());
    b.step(BrowserEvent::Up);
    assert_eq!(b.selection, Some(2));
    b.step(BrowserEvent::Up);
    assert_eq!(b.selection, Some(1));
    b.step(BrowserEvent::Up);
    assert_eq!(b.selection, Some(0));
}

#[test]
fn refresh_resets_selection() {
    let mut b = BrowserState::new();
    b.refresh(three_notes());
    b.step(BrowserEvent::Down);
    assert_eq!(b.selection, Some(1));
    b.refresh(three_notes());
    assert_eq!(b.selection, Some(0));
    b.refresh(Vec::new());
    assert_eq!(b.selection, None);
}

#[test]
fn quit_requests_exit() {
    let mut b = BrowserState::new();
    b.refresh(three_notes());
    assert!(matches!(b.step(BrowserEvent::Quit), BrowserAction::Exit));
}

#[test]
fn new_note_requests_prompt() {
    let mut b = BrowserState::new();
    assert!(matches!(
        b.step(BrowserEvent::NewNote),
        BrowserAction::PromptNew
    ));
}

#[test]
fn confirm_opens_selected_title() {
    let mut b = BrowserState::new();
    b.refresh(three_notes());
    b.step(BrowserEvent::Down);
    match b.step(BrowserEvent::Confirm) {
        BrowserAction::OpenNote(title) => assert_eq!(title, "B"),
        other => panic!("unexpected action: {:?}", other),
    }
    assert_eq!(b.selection, Some(1));
}

#[test]
fn confirm_without_selection_redraws() {
    let mut b = BrowserState::new();
    assert!(matches!(
        b.step(BrowserEvent::Confirm),
        BrowserAction::Redraw
    ));
}

#[test]
fn navigation_on_empty_list_is_a_noop() {
    let mut b = BrowserState::new();
    assert!(matches!(b.step(BrowserEvent::Down), BrowserAction::Redraw));
    assert_eq!(b.selection, None);
    assert!(matches!(b.step(BrowserEvent::Up), BrowserAction::Redraw));
    assert_eq!(b.selection, None);
}

#[test]
fn other_keys_redraw_unchanged() {
    let mut b = BrowserState::new();
    b.refresh(three_notes());
    assert!(matches!(b.step(BrowserEvent::Other), BrowserAction::Redraw));
    assert_eq!(b.selection, Some(0));
}

#[test]
fn resync_rebuilds_the_snapshot_from_the_store() {
    let mut store = NoteStore::new();
    store.save(Note::new(
        "Old".to_string(),
        "o".to_string(),
        "2024-01-01T00:00:00+00:00".to_string(),
    ));
    store.save(Note::new(
        "New".to_string(),
        "n".to_string(),
        "2024-01-02T00:00:00+00:00".to_string(),
    ));
    let mut b = BrowserState::new();
    b.resync(&store);
    assert_eq!(b.selection, Some(0));
    assert_eq!(b.notes.len(), 2);
    assert_eq!(b.notes[0].title, "New");
    assert_eq!(b.notes[1].title, "Old");
    store.delete("New").unwrap();
    store.delete("Old").unwrap();
    b.resync(&store);
    assert_eq!(b.selection, None);
    assert_eq!(b.notes.len(), 0);
}

#[test]
fn single_note_wraps_to_itself() {
    let mut b = BrowserState::new();
    b.refresh(vec![Note::new(
        "Only".to_string(),
        "x".to_string(),
        "2024-01-01T00:00:00+00:00".to_string(),
    )]);
    b.step(BrowserEvent::Down);
    assert_eq!(b.selection, Some(0));
    b.step(BrowserEvent::Up);
    assert_eq!(b.selection, Some(0));
}
