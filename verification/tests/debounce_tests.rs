use autotabber::DebounceState;
use autotabber::NoteDebouncer;
use autotabber::handle_note;

#[test]
fn debounce_emits_once_on_min_count() {
    // the same non-empty symbol for exactly min_count frames: one emission,
    // on the min_count-th frame, never earlier
    let mut state = DebounceState::new();
    let min_count = 4u8;
    for step in 1..=4u32 {
        let out = handle_note("4", &mut state, min_count);
        if step == 4 {
            assert_eq!(out.note, Some("4"));
        } else {
            assert_eq!(out.note, None);
        }
        assert!(!out.line_break);
    }
    // further repeats of the same symbol emit nothing more
    for _ in 0..10 {
        let out = handle_note("4", &mut state, min_count);
        assert_eq!(out.note, None);
    }
}

#[test]
fn debounce_resets_on_symbol_change() {
    let mut state = DebounceState::new();
    let out1 = handle_note("1", &mut state, 2);
    assert_eq!(out1.note, None);
    let out2 = handle_note("2", &mut state, 2);
    assert_eq!(out2.note, None);
    let out3 = handle_note("2", &mut state, 2);
    assert_eq!(out3.note, Some("2"));
}

#[test]
fn debounce_never_emits_empty_symbol() {
    let mut state = DebounceState::new();
    for _ in 0..30 {
        let out = handle_note("", &mut state, 1);
        assert_eq!(out.note, None);
        assert!(!out.line_break);
    }
}

#[test]
fn line_break_after_twenty_emissions() {
    // with min_count = 1 an alternating pair of symbols emits every frame;
    // the twentieth emission carries a line break and the count restarts,
    // so the twenty-first does not
    let mut state = DebounceState::new();
    let symbols = ["1", "2"];
    for step in 1..=21u32 {
        let s = symbols[(step % 2) as usize];
        let out = handle_note(s, &mut state, 1);
        assert_eq!(out.note, Some(s));
        if step == 20 {
            assert!(out.line_break);
        } else {
            assert!(!out.line_break);
        }
    }
}

#[test]
fn full_mode_emits_every_frame() {
    // full mode: every frame, a silent one included, yields exactly one
    // emitted symbol on a line of its own
    let mut d = NoteDebouncer::new(4, true);
    let out = d.step("5");
    assert_eq!(out.note, Some("5"));
    assert!(out.line_break);
    let out = d.step("");
    assert_eq!(out.note, Some(""));
    assert!(out.line_break);
    let out = d.step("5");
    assert_eq!(out.note, Some("5"));
    assert!(out.line_break);
}

#[test]
fn debouncer_in_debounce_mode_matches_handle_note() {
    let mut d = NoteDebouncer::new(3, false);
    let mut state = DebounceState::new();
    let feed = ["1", "1", "1", "1", "", "2", "2", "2"];
    for s in feed.iter() {
        let a = d.step(s);
        let b = handle_note(s, &mut state, 3);
        assert_eq!(a.note, b.note);
        assert_eq!(a.line_break, b.line_break);
    }
}
