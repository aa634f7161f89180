use xplane_plugins::numbers::{i32_to_text, parse_i32, parse_usize, split_words};
use xplane_plugins::xgs::{visible_position, MenuOutcome, XgsSettings};

#[test]
fn integers_are_read_as_str_parse_reads_them() {
    assert_eq!(parse_i32("42"), Some(42));
    assert_eq!(parse_i32("-17"), Some(-17));
    assert_eq!(parse_i32("+8"), Some(8));
    assert_eq!(parse_i32("-2147483648"), Some(i32::MIN));
    assert_eq!(parse_i32("2147483647"), Some(i32::MAX));
    assert_eq!(parse_i32("2147483648"), None);
    assert_eq!(parse_i32("-2147483649"), None);
    assert_eq!(parse_i32("0000000000000000000012"), Some(12));
    assert_eq!(parse_i32("1x"), None);
    assert_eq!(parse_i32("-"), None);
    assert_eq!(parse_i32(""), None);
    assert_eq!(parse_usize("+3"), Some(3));
    assert_eq!(parse_usize("-0"), None);
    assert_eq!(parse_usize("18446744073709551615"), "18446744073709551615".parse::<usize>().ok());
    assert_eq!(parse_usize("99999999999999999999999"), None);
    for text in ["7", "-7", "+7", "x", "", "300000000000", "-0", "+", "00"] {
        assert_eq!(parse_i32(text), text.parse::<i32>().ok(), "{text}");
        assert_eq!(parse_usize(text), text.parse::<usize>().ok(), "{text}");
    }
}

#[test]
fn integers_are_written_as_display_writes_them() {
    for value in [0, 7, -7, 600, i32::MIN, i32::MAX] {
        assert_eq!(i32_to_text(value), value.to_string());
    }
}

#[test]
fn words_split_at_white_space() {
    assert_eq!(split_words("  20 600\t1\n3  0 "), vec!["20", "600", "1", "3", "0"]);
    assert!(split_words(" \n ").is_empty());
}

#[test]
fn settings_read_back_what_was_saved() {
    let settings = XgsSettings {
        window_x: -35,
        window_y: 812,
        log_enabled: true,
        show_duration_index: 4,
        show_in_replay: false,
    };
    assert_eq!(settings.text(), "-35 812 1 4 0");
    assert_eq!(XgsSettings::from_text(&settings.text()), settings);
}

#[test]
fn settings_file_defaults_and_clamps() {
    let defaults = XgsSettings::new();
    assert_eq!(defaults.text(), "20 600 0 3 0");
    assert_eq!(XgsSettings::from_text("1 2 3 4"), defaults);
    let read = XgsSettings::from_text("x 5 7 99 -1 extra");
    assert_eq!(read.window_x, 20);
    assert_eq!(read.window_y, 5);
    assert!(read.log_enabled);
    assert_eq!(read.show_duration_index, 4);
    assert!(read.show_in_replay);
    let read = XgsSettings::from_text("1 2 no +2 0");
    assert!(!read.log_enabled);
    assert_eq!(read.show_duration_index, 2);
    assert_eq!(XgsSettings::from_text("1 2 0 -1 0").show_duration_index, 3);
}

#[test]
fn menu_items_change_the_settings() {
    let mut settings = XgsSettings::new();
    assert_eq!(settings.menu_choice(1), MenuOutcome::Changed);
    assert!(settings.log_enabled);
    assert_eq!(settings.menu_choice(2), MenuOutcome::Changed);
    assert!(settings.show_in_replay);
    assert_eq!(settings.menu_choice(14), MenuOutcome::Changed);
    assert_eq!(settings.show_duration_index, 4);
    assert_eq!(settings.menu_choice(10), MenuOutcome::Changed);
    assert_eq!(settings.show_duration_index, 0);
    let before = settings;
    assert_eq!(settings.menu_choice(15), MenuOutcome::Ignored);
    assert_eq!(settings.menu_choice(100), MenuOutcome::Preview);
    assert_eq!(settings.menu_choice(0), MenuOutcome::Ignored);
    assert_eq!(settings, before);
}

#[test]
fn overlay_is_kept_on_screen() {
    assert_eq!(visible_position(20, 600, 185, 0, 1080, 1920, 0), (20, 600));
    assert_eq!(visible_position(-50, 2000, 185, 0, 1080, 1920, 0), (0, 1080));
    assert_eq!(visible_position(1900, 100, 185, 0, 1080, 1920, 0), (1735, 170));
    assert_eq!(visible_position(500, 50, 2000, 0, 100, 1920, 0), (0, 100));
}
