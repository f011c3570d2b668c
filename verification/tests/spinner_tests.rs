use chatti::ui::spinner::Spinner;

#[test]
fn test_spinner() {
    let mut spinner = Spinner::new();
    let first_frame = spinner.next_frame();
    let second_frame = spinner.next_frame();
    assert_ne!(first_frame, second_frame);
}

#[test]
fn spinner_starts_with_the_first_glyph() {
    let mut spinner = Spinner::new();
    let frames: Vec<char> = (0..10).map(|_| spinner.next_frame()).collect();
    assert_eq!(frames, vec!['⠋', '⠙', '⠹', '⠸', '⠼', '⠴', '⠦', '⠧', '⠇', '⠏']);
}

#[test]
fn spinner_repeats_after_ten_frames() {
    let mut spinner = Spinner::new();
    let frames: Vec<char> = (0..35).map(|_| spinner.next_frame()).collect();
    for i in 0..25 {
        assert_eq!(frames[i], frames[i + 10]);
        assert_ne!(frames[i], frames[i + 1]);
    }
}

#[test]
fn default_spinner_is_a_new_spinner() {
    let mut spinner = Spinner::default();
    assert_eq!(spinner.next_frame(), '⠋');
}
