use ternary_cadence::signals::{adds_new_content, trails_off, window_start};

#[test]
fn window_keeps_the_most_recent_outputs() {
    assert_eq!(window_start(10, 8), 2);
    assert_eq!(window_start(8, 8), 0);
    assert_eq!(window_start(3, 8), 0);
    assert_eq!(window_start(0, 8), 0);
    assert_eq!(window_start(5, 0), 5);
    assert_eq!(window_start(4, 3), 1);
}

#[test]
fn trailing_ellipsis() {
    assert!(trails_off("Let me think about this..."));
    assert!(trails_off("Still working..."));
    assert!(trails_off("..."));
    assert!(trails_off("ü..."));
    assert!(!trails_off(".."));
    assert!(!trails_off(""));
    assert!(!trails_off("Done."));
    assert!(!trails_off("Wait… "));
    assert!(!trails_off("Wait…"));
    assert!(!trails_off("a.. ."));
}

#[test]
fn new_content_compares_byte_lengths() {
    assert!(adds_new_content(
        "Actually, I need to reconsider this entirely because...",
        "Almost done"
    ));
    // 5 bytes against half of 11 bytes (5): not longer.
    assert!(!adds_new_content("abcde", "Almost done"));
    assert!(adds_new_content("abcdef", "Almost done"));
    assert!(adds_new_content("a", ""));
    assert!(!adds_new_content("", ""));
    // "ü" is two bytes: 2 > 3 / 2.
    assert!(adds_new_content("ü", "abc"));
}
