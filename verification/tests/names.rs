use mess::config::{choose_base, ConfigError};
use mess::name::{Directory, NameParseError};

#[test]
fn plain_name_is_accepted_and_kept() {
    let name = Directory::from_str("alpha").unwrap();
    assert_eq!(name.as_ref(), "alpha");
}

#[test]
fn name_with_inner_separator_is_refused() {
    assert!(matches!(
        Directory::from_str("a/b"),
        Err(NameParseError::ContainsPathSeparator)
    ));
}

#[test]
fn name_with_trailing_separator_is_refused() {
    assert!(matches!(
        Directory::from_str("alpha/"),
        Err(NameParseError::ContainsPathSeparator)
    ));
}

#[test]
fn lone_separator_is_refused() {
    assert!(matches!(
        Directory::from_str("/"),
        Err(NameParseError::ContainsPathSeparator)
    ));
}

#[test]
fn empty_name_is_refused() {
    assert!(matches!(
        Directory::from_str(""),
        Err(NameParseError::ContainsPathSeparator)
    ));
}

#[test]
fn dot_names_are_single_segments() {
    assert_eq!(Directory::from_str(".").unwrap().as_ref(), ".");
    assert_eq!(Directory::from_str("..").unwrap().as_ref(), "..");
    assert_eq!(Directory::from_str(".hidden").unwrap().as_ref(), ".hidden");
}

#[test]
fn backslash_and_spaces_are_no_separators() {
    assert_eq!(Directory::from_str("a\\b").unwrap().as_ref(), "a\\b");
    assert_eq!(Directory::from_str("my project").unwrap().as_ref(), "my project");
}

#[test]
fn name_beyond_ascii_is_kept() {
    assert_eq!(Directory::from_str("üb€r").unwrap().as_ref(), "üb€r");
    assert!(Directory::from_str("ü/€").is_err());
}

#[test]
fn name_error_message() {
    assert_eq!(
        NameParseError::ContainsPathSeparator.to_string(),
        "Directory name cannot contain path separator"
    );
}

#[test]
fn explicit_base_wins() {
    assert_eq!(choose_base(Some("given"), Some("default")), Ok("given"));
    assert_eq!(choose_base(Some("given"), None), Ok("given"));
}

#[test]
fn default_base_is_the_fallback() {
    assert_eq!(choose_base(None, Some("default")), Ok("default"));
}

#[test]
fn no_base_is_an_error() {
    assert_eq!(
        choose_base::<String>(None, None),
        Err(ConfigError::NoBaseDirectory)
    );
}

#[test]
fn config_error_message() {
    assert_eq!(
        ConfigError::NoBaseDirectory.to_string(),
        "Could not find application directory"
    );
}
