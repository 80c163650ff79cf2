//! The configuration parser: defaults, overrides, and rejected text.
use ninomiya::config::Config;
use ninomiya::error::ConfigError;

#[test]
fn empty_config() {
    Config::load_from("").expect("constructing a config from an empty file should work");
}

#[test]
fn nonexistent_config_path() {
    assert!(Config::load_from("/i/do/not/exist").is_err());
}

#[test]
fn config_file_does_not_parse() {
    assert!(Config::load_from("asldkfjaldskfj'!@#").is_err());
}

#[test]
fn defaults_without_overrides() {
    let c = Config::load_from("\n# just a comment\n\n").expect("comments and blanks are fine");
    assert_eq!(c.width, 300);
    assert_eq!(c.image_height, 64);
    assert_eq!(c.padding_x, 0);
    assert_eq!(c.padding_y, 0);
    assert_eq!(c.duration_ms, 3000);
    assert_eq!(c.notification_spacing, 10);
    assert_eq!(c.icon_height, 64);
    assert_eq!(c.theme_path, "style.css");
}

#[test]
fn overrides_take_effect() {
    let text = "width = 200\npadding_y = -4\nduration = 2.5\ntheme_path = \"dark.css\"\n";
    let c = Config::load_from(text).expect("well-formed overrides parse");
    assert_eq!(c.width, 200);
    assert_eq!(c.padding_y, -4);
    assert_eq!(c.duration_ms, 2500);
    assert_eq!(c.theme_path, "dark.css");
    // untouched fields keep their defaults
    assert_eq!(c.image_height, 64);
}

#[test]
fn duration_reads_decimal_seconds() {
    assert_eq!(Config::load_from("duration = 3").unwrap().duration_ms, 3000);
    assert_eq!(Config::load_from("duration = 0.25").unwrap().duration_ms, 250);
    // digits beyond millisecond resolution are ignored
    assert_eq!(Config::load_from("duration = 1.23456").unwrap().duration_ms, 1234);
    assert_eq!(
        Config::load_from("duration = -1").unwrap_err(),
        ConfigError::BadNumber
    );
    assert_eq!(
        Config::load_from("duration = 1.").unwrap_err(),
        ConfigError::BadNumber
    );
}

#[test]
fn unknown_keys_are_rejected() {
    assert_eq!(
        Config::load_from("puddings = 7").unwrap_err(),
        ConfigError::UnknownKey
    );
}

#[test]
fn bad_values_are_rejected() {
    assert_eq!(
        Config::load_from("width = ten").unwrap_err(),
        ConfigError::BadNumber
    );
    assert_eq!(
        Config::load_from("width = 99999999999").unwrap_err(),
        ConfigError::BadNumber
    );
    assert_eq!(
        Config::load_from("theme_path = bare.css").unwrap_err(),
        ConfigError::BadLine
    );
    assert_eq!(Config::load_from("width").unwrap_err(), ConfigError::BadLine);
}

#[test]
fn whitespace_and_signs_parse() {
    let c = Config::load_from("  padding_x =  12  \n\tnotification_spacing = 0")
        .expect("padded assignments parse");
    assert_eq!(c.padding_x, 12);
    assert_eq!(c.notification_spacing, 0);
    let c = Config::load_from("width = -2147483648").expect("the full i32 range parses");
    assert_eq!(c.width, i32::MIN);
    let c = Config::load_from("width = 2147483647").expect("the full i32 range parses");
    assert_eq!(c.width, i32::MAX);
}

#[test]
fn an_error_anywhere_rejects_the_text() {
    assert!(Config::load_from("width = 100\nbad line\nicon_height = 1").is_err());
}

#[test]
fn later_assignments_win() {
    let c = Config::load_from("width = 100\nwidth = 150").expect("reassignment parses");
    assert_eq!(c.width, 150);
}

#[test]
fn full_theme_path_joins_the_config_dir() {
    let c = Config::default();
    match c.full_theme_path() {
        Ok(p) => {
            assert!(p.ends_with("/style.css"));
            assert!(!p.is_empty());
        }
        // with no home directory in the environment there is no config dir
        Err(e) => assert_eq!(e, ConfigError::NoConfigDir),
    }
}
