use wsl_hello::config::{get_authenticator_path, get_config_value, get_win_mnt};
use wsl_hello::error::{ConfigError, IoError};

const INSTALLED: &str = "authenticator_path = \"/mnt/c/Users/gray/AppData/Local/Programs/wsl-hello-sudo/WindowsHelloBridge.exe\"\nwin_mnt = \"/mnt/c\"\n";

fn missing(result: Result<String, ConfigError>, field: &str) -> bool {
    matches!(result, Err(ConfigError::MissingField(name)) if name == field)
}

fn invalid(result: Result<String, ConfigError>, field: &str) -> bool {
    matches!(result, Err(ConfigError::InvalidValueType(name)) if name == field)
}

#[test]
fn installed_settings_are_read() {
    assert_eq!(
        get_authenticator_path(INSTALLED).unwrap(),
        "/mnt/c/Users/gray/AppData/Local/Programs/wsl-hello-sudo/WindowsHelloBridge.exe"
    );
    assert_eq!(get_win_mnt(INSTALLED).unwrap(), "/mnt/c");
}

#[test]
fn blank_lines_and_comments_are_skipped() {
    let config = "\n   \n# win_mnt = \"/mnt/x\"\n\t# more\r\nwin_mnt=\"/mnt/c\"\n\n";
    assert_eq!(get_win_mnt(config).unwrap(), "/mnt/c");
}

#[test]
fn lines_without_an_equals_sign_are_skipped() {
    assert_eq!(get_win_mnt("win_mnt\n[section]\nwin_mnt = \"a\"").unwrap(), "a");
}

#[test]
fn first_setting_decides() {
    assert_eq!(get_win_mnt("win_mnt = \"a\"\nwin_mnt = \"b\"\n").unwrap(), "a");
    assert!(invalid(get_win_mnt("win_mnt = a\nwin_mnt = \"b\"\n"), "win_mnt"));
}

#[test]
fn white_space_around_names_and_values_does_not_count() {
    assert_eq!(get_win_mnt("\u{3000}win_mnt\t=\u{a0}\"/mnt/c\" \r\n").unwrap(), "/mnt/c");
    assert_eq!(get_win_mnt("win_mnt = \" /mnt/c \"").unwrap(), " /mnt/c ");
}

#[test]
fn values_may_hold_quotes_and_equals_signs() {
    assert_eq!(get_win_mnt("win_mnt = \"a\"b=c\"").unwrap(), "a\"b=c");
    assert_eq!(get_win_mnt("win_mnt = \"\"").unwrap(), "");
}

#[test]
fn values_must_be_double_quoted() {
    for value in ["a", "'a'", "\"a", "a\"", "\"", "", "\"a\" # note"] {
        let config = format!("win_mnt = {}\n", value);
        assert!(invalid(get_win_mnt(&config), "win_mnt"), "{}", config);
    }
}

#[test]
fn unset_keys_are_missing() {
    assert!(missing(get_win_mnt(""), "win_mnt"));
    assert!(missing(get_authenticator_path("win_mnt = \"/mnt/c\"\n"), "authenticator_path"));
    assert!(missing(get_config_value("win_mnt2 = \"a\"\nWIN_MNT = \"a\"", "win_mnt"), "win_mnt"));
}

#[test]
fn an_empty_name_can_be_looked_up() {
    assert_eq!(get_config_value(" = \"v\"", "").unwrap(), "v");
}

#[test]
fn config_errors_are_described() {
    assert_eq!(get_win_mnt("").unwrap_err().message(), "field: 'win_mnt' is not found");
    assert_eq!(
        get_win_mnt("win_mnt = 1").unwrap_err().message(),
        "field: 'win_mnt' has an invalid value type"
    );
    let io = IoError { not_found: true, message: "No such file".to_string() };
    assert_eq!(ConfigError::from(io).message(), "No such file");
}

#[test]
fn lines_for_other_keys_do_not_matter() {
    let config = "other = broken\nwin_mnt2 = \"x\"\nwin_mnt = \"/mnt/c\"\nother = \"y\"\n";
    assert_eq!(get_win_mnt(config).unwrap(), "/mnt/c");
}
