use activity_graph::log::{new_state, set_verbosity, verbose_println};
use activity_graph::model::Verbosity;
use activity_graph::text::{decimal_text, same_text};

#[test]
fn nothing_is_reported_unless_asked_for() {
    let mut state = new_state();
    assert_eq!(verbose_println(&mut state, "m", false, None, 0, "t"), None);
    assert_eq!(verbose_println(&mut state, "m", true, None, 0, "t"), None);
    assert_eq!(activity_graph::log::println(&state, "m", "12:00"), Some("[12:00] m".to_string()));
}

#[test]
fn quiet_disables_prints() {
    let mut state = new_state();
    set_verbosity(&mut state, &Verbosity { verbose: false, quiet: true });
    assert!(state.quiet);
    assert!(!state.verbose);
    assert_eq!(activity_graph::log::println(&state, "m", "12:00"), None);
}

#[test]
fn a_message_stands_on_a_line_with_the_time() {
    let mut state = new_state();
    set_verbosity(&mut state, &Verbosity { verbose: true, quiet: false });
    assert_eq!(
        verbose_println(&mut state, "done", false, Some(10), 0, "12:00"),
        Some("[12:00] done\n".to_string())
    );
}

#[test]
fn an_update_clears_the_line_and_writes_over_it() {
    let mut state = new_state();
    set_verbosity(&mut state, &Verbosity { verbose: true, quiet: false });
    assert_eq!(
        verbose_println(&mut state, "abc", true, Some(11), 100, "t"),
        Some("          \rabc\r".to_string())
    );
    assert_eq!(state.last_update, Some(100));
    assert!(state.last_print_was_update);
}

#[test]
fn a_long_update_is_cut_off() {
    let mut state = new_state();
    set_verbosity(&mut state, &Verbosity { verbose: true, quiet: false });
    // width 10: messages of 9 characters and more are cut to 6 and dots
    assert_eq!(
        verbose_println(&mut state, "123456789", true, Some(11), 0, "t"),
        Some("          \r123456...\r".to_string())
    );
    let mut state = new_state();
    set_verbosity(&mut state, &Verbosity { verbose: true, quiet: false });
    assert_eq!(
        verbose_println(&mut state, "12345678", true, Some(11), 0, "t"),
        Some("          \r12345678\r".to_string())
    );
}

#[test]
fn the_width_is_four_at_least_and_seventy_by_default() {
    let mut state = new_state();
    set_verbosity(&mut state, &Verbosity { verbose: true, quiet: false });
    assert_eq!(verbose_println(&mut state, "abcd", true, Some(0), 0, "t"), Some("    \r...\r".to_string()));
    let mut state = new_state();
    set_verbosity(&mut state, &Verbosity { verbose: true, quiet: false });
    assert_eq!(
        verbose_println(&mut state, "x", true, None, 0, "t"),
        Some(format!("{}\rx\r", " ".repeat(70)))
    );
}

#[test]
fn updates_are_shown_every_twenty_milliseconds_at_most() {
    let mut state = new_state();
    set_verbosity(&mut state, &Verbosity { verbose: true, quiet: false });
    assert!(verbose_println(&mut state, "a", true, Some(11), 100, "t").is_some());
    assert!(verbose_println(&mut state, "b", true, Some(11), 119, "t").is_none());
    assert!(verbose_println(&mut state, "b", true, Some(11), 99, "t").is_none());
    assert_eq!(state.last_update, Some(100));
    assert!(verbose_println(&mut state, "c", true, Some(11), 120, "t").is_some());
    assert_eq!(state.last_update, Some(120));
}

#[test]
fn a_message_after_an_update_clears_the_line_first() {
    let mut state = new_state();
    set_verbosity(&mut state, &Verbosity { verbose: true, quiet: false });
    verbose_println(&mut state, "a", true, Some(6), 100, "t");
    assert_eq!(
        verbose_println(&mut state, "done", false, Some(6), 101, "12:00"),
        Some("     \r[12:00] done\n".to_string())
    );
    assert_eq!(state.last_update, None);
    assert!(!state.last_print_was_update);
    // the next update is not held back
    assert!(verbose_println(&mut state, "b", true, Some(6), 102, "t").is_some());
}

#[test]
fn numbers_are_written_in_decimal() {
    assert_eq!(decimal_text(0), "0");
    assert_eq!(decimal_text(7), "7");
    assert_eq!(decimal_text(10), "10");
    assert_eq!(decimal_text(1234567890), "1234567890");
    assert_eq!(decimal_text(usize::MAX), usize::MAX.to_string());
}

#[test]
fn texts_are_compared_character_by_character() {
    assert!(same_text("", ""));
    assert!(same_text("gr\u{fc}n", "gr\u{fc}n"));
    assert!(!same_text("a", "b"));
    assert!(!same_text("a", "ab"));
    assert!(!same_text("ab", "a"));
}
