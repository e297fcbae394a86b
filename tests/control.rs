use shrimp::control::{quit_requested, Input};

#[test]
fn quit_or_escape_stops() {
    assert!(!quit_requested(&[]));
    assert!(!quit_requested(&[Input::Other, Input::Other]));
    assert!(quit_requested(&[Input::Other, Input::Quit]));
    assert!(quit_requested(&[Input::Escape]));
}
