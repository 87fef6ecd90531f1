use notes::browser::{BrowserEvent, BrowserState};
use notes::note::Note;
use notes::render::render;

#[test]
fn render_shows_rows_selection_and_preview() {
    let mut b = BrowserState::new();
    b.refresh(vec![
        Note::new(
            "A".to_string(),
            "alpha body".to_string(),
            "2024-01-02T03:04:05.678+00:00".to_string(),
        ),
        Note::new(
            "B".to_string(),
            "beta body".to_string(),
            "2024-01-01T00:00:00.000+00:00".to_string(),
        ),
    ]);
    let f = render(&b);
    assert_eq!(f.rows.len(), 2);
    assert_eq!(f.rows[0].title, "A");
    assert_eq!(f.rows[0].modified, "2024-01-02 03:04:05");
    assert_eq!(f.rows[1].title, "B");
    assert_eq!(f.rows[1].modified, "2024-01-01 00:00:00");
    assert_eq!(f.selected, Some(0));
    assert_eq!(f.preview, "alpha body");
    assert_eq!(
        f.footer,
        "Ctrl-Q: Quit | Enter: Edit | Ctrl-N: New | Up/Down: Navigate"
    );
}

#[test]
fn render_follows_the_selection() {
    let mut b = BrowserState::new();
    b.refresh(vec![
        Note::new(
            "A".to_string(),
            "alpha body".to_string(),
            "2024-01-02T00:00:00+00:00".to_string(),
        ),
        Note::new(
            "B".to_string(),
            "beta body".to_string(),
            "2024-01-01T00:00:00+00:00".to_string(),
        ),
    ]);
    b.step(BrowserEvent::Down);
    let f = render(&b);
    assert_eq!(f.selected, Some(1));
    assert_eq!(f.preview, "beta body");
}

#[test]
fn render_of_empty_state_is_empty() {
    let b = BrowserState::new();
    let f = render(&b);
    assert_eq!(f.rows.len(), 0);
    assert_eq!(f.selected, None);
    assert_eq!(f.preview, "");
}
