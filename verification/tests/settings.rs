use niri_input_portal::coord::Coord;
use niri_input_portal::text::{decimal_text, join, text_le, truth_text};
use niri_input_portal::wayland::{
    idle_timeout_from_env, idle_timeout_of, IdleTimeout, DEFAULT_IDLE_TIMEOUT,
};

#[test]
fn the_watchdog_has_a_default() {
    assert_eq!(DEFAULT_IDLE_TIMEOUT, 15);
    assert_eq!(idle_timeout_from_env(None), IdleTimeout::After { secs: 15 });
}

#[test]
fn zero_turns_the_watchdog_off() {
    assert_eq!(idle_timeout_from_env(Some("0".to_owned())), IdleTimeout::Never);
    assert_eq!(idle_timeout_from_env(Some("000".to_owned())), IdleTimeout::Never);
}

#[test]
fn white_space_around_the_setting_is_ignored() {
    let setting = "\t 90\u{2003}\n".to_owned();
    assert_eq!(idle_timeout_from_env(Some(setting)), IdleTimeout::After { secs: 90 });
    let setting = " 30 ".to_owned();
    assert_eq!(idle_timeout_from_env(Some(setting)), IdleTimeout::After { secs: 30 });
    let setting = " \u{3000} ".to_owned();
    assert_eq!(idle_timeout_from_env(Some(setting)), IdleTimeout::After { secs: 15 });
    // The number itself is not trimmed.
    assert_eq!(idle_timeout_of(" 90"), IdleTimeout::After { secs: 15 });
}

/// The characters that Unicode counts as white space.
fn is_white(c: char) -> bool {
    matches!(
        c,
        '\u{9}'..='\u{d}'
            | ' '
            | '\u{85}'
            | '\u{a0}'
            | '\u{1680}'
            | '\u{2000}'..='\u{200a}'
            | '\u{2028}'
            | '\u{2029}'
            | '\u{202f}'
            | '\u{205f}'
            | '\u{3000}'
    )
}

#[test]
fn white_space_is_what_unicode_says() {
    for c in '\0'..=char::MAX {
        let white = idle_timeout_from_env(Some(format!("{c}7{c}"))) == IdleTimeout::After { secs: 7 };
        assert_eq!(white, is_white(c), "{c:?}");
    }
}

#[test]
fn what_is_no_number_falls_back() {
    for setting in ["", "ten", "-3", "3.5", "+", "1 2", "18446744073709551616"] {
        assert_eq!(
            idle_timeout_from_env(Some(setting.to_owned())),
            IdleTimeout::After { secs: 15 },
            "{setting:?}"
        );
    }
    assert_eq!(
        idle_timeout_from_env(Some("+18446744073709551615".to_owned())),
        IdleTimeout::After { secs: u64::MAX }
    );
}

#[test]
fn numbers_are_written_in_decimal() {
    for n in [0, 7, 10, 42, 100, 65535, u64::MAX] {
        assert_eq!(decimal_text(n), format!("{n}"));
    }
    assert_eq!(truth_text(true), "true");
    assert_eq!(truth_text(false), "false");
}

#[test]
fn lists_are_joined() {
    let list = vec!["a".to_owned(), "b".to_owned(), "c".to_owned()];
    assert_eq!(join(&list, ", "), "a, b, c");
    assert_eq!(join(&list[..1].to_vec(), ", "), "a");
    assert_eq!(join(&Vec::new(), ", "), "");
}

#[test]
fn texts_are_compared_by_character() {
    assert!(text_le("", "a"));
    assert!(text_le("ab", "ab"));
    assert!(text_le("ab", "abc"));
    assert!(!text_le("b", "abc"));
}

#[test]
fn positions_compare_with_whole_pixels() {
    let half = Coord::At { steps: 128, exact: true };
    let just_past = Coord::At { steps: 256, exact: false };
    assert!(half.is_before(1));
    assert!(!half.is_before(0));
    assert!(half.is_after(0));
    assert!(!just_past.is_before(1));
    assert!(just_past.is_after(1));
    assert!(!Coord::of_pixel(1).is_after(1));
    assert!(!Coord::NotANumber.is_before(0) && !Coord::NotANumber.is_after(0));
}

#[test]
fn moving_back_restores_a_position() {
    let c = Coord::At { steps: -77, exact: false };
    assert_eq!(c.moved_by(1000).moved_by(-1000), c);
    assert_eq!(Coord::of_pixel(3).moved_by(-5), Coord::of_pixel(-2));
    assert_eq!(
        Coord::At { steps: i64::MAX, exact: true }.moved_by(1),
        Coord::At { steps: i64::MAX, exact: true }
    );
}

#[test]
fn clamping_keeps_what_lies_between() {
    assert_eq!(Coord::of_pixel(-4).clamp_to(9), Coord::of_pixel(0));
    assert_eq!(Coord::of_pixel(10).clamp_to(9), Coord::of_pixel(9));
    let between = Coord::At { steps: 1000, exact: false };
    assert_eq!(between.clamp_to(9), between);
    assert_eq!(Coord::NotANumber.clamp_to(9), Coord::NotANumber);
}
