use notes::editor::{editor_candidates, preferred_editor};

#[test]
fn candidates_are_listed_in_preference_order() {
    let c = editor_candidates();
    assert_eq!(c, vec!["nvim", "vi", "nano", "vim", "gedit"]);
}

#[test]
fn first_available_editor_wins() {
    assert_eq!(preferred_editor(&vec![true, true, true, true, true]), Some(0));
    assert_eq!(
        preferred_editor(&vec![false, true, false, true, false]),
        Some(1)
    );
    assert_eq!(
        preferred_editor(&vec![false, false, false, false, true]),
        Some(4)
    );
}

#[test]
fn no_resolvable_editor_is_reported_as_none() {
    assert_eq!(
        preferred_editor(&vec![false, false, false, false, false]),
        None
    );
}
