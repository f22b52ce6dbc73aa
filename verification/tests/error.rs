use service_runner::error::MyError;

#[test]
fn an_io_error_is_shown_with_its_prefix() {
    assert_eq!(MyError::Io("disk full".to_string()).message(), "IO error: disk full");
}

#[test]
fn a_parse_error_is_shown_with_its_prefix() {
    assert_eq!(MyError::Parse("bad digit".to_string()).message(), "Parse error: bad digit");
}

#[test]
fn an_unknown_error_has_a_fixed_text() {
    assert_eq!(MyError::Unknown.message(), "Unknown error");
}

#[test]
fn an_empty_description_leaves_the_prefix_alone() {
    assert_eq!(MyError::Io(String::new()).message(), "IO error: ");
    assert_eq!(MyError::Parse(String::new()).message(), "Parse error: ");
}

#[test]
fn a_description_is_taken_over_character_by_character() {
    assert_eq!(MyError::Io("plik nie istnieje: źródło".to_string()).message(), "IO error: plik nie istnieje: źródło");
    assert_eq!(MyError::Parse("IO error: x".to_string()).message(), "Parse error: IO error: x");
}
