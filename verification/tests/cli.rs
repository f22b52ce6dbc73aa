use service_runner::cli::{parse_args, EarlyExit};
use service_runner::config::Config;

fn line(words: &[&str]) -> Vec<String> {
    words.iter().map(|word| word.to_string()).collect()
}

fn config(host: &str, port: u16, verbose: bool) -> Config {
    Config { host: host.to_string(), port, verbose }
}

#[test]
fn a_bare_command_line_gives_the_defaults() {
    assert_eq!(parse_args(&line(&["app"])), Ok(config("127.0.0.1", 8080, false)));
    assert_eq!(parse_args(&line(&["app"])), Ok(Config::default()));
}

#[test]
fn all_three_flags_are_taken_over() {
    let parsed = parse_args(&line(&["app", "--host", "example.org", "--port", "9000", "-v"]));
    assert_eq!(parsed, Ok(config("example.org", 9000, true)));
}

#[test]
fn flags_may_come_in_any_order() {
    let parsed = parse_args(&line(&["app", "-v", "--port", "1234", "--host", "localhost"]));
    assert_eq!(parsed, Ok(config("localhost", 1234, true)));
}

#[test]
fn a_value_may_be_joined_to_its_flag() {
    let parsed = parse_args(&line(&["app", "--host=10.0.0.1", "--port=81"]));
    assert_eq!(parsed, Ok(config("10.0.0.1", 81, false)));
}

#[test]
fn port_notanumber_defaults_to_8080() {
    let parsed = parse_args(&line(&["app", "--port", "notanumber"]));
    assert_eq!(parsed, Ok(config("127.0.0.1", 8080, false)));
}

#[test]
fn a_port_out_of_range_defaults_to_8080() {
    assert_eq!(parse_args(&line(&["app", "--port", "65536"])), Ok(config("127.0.0.1", 8080, false)));
    assert_eq!(parse_args(&line(&["app", "--port", "65535"])), Ok(config("127.0.0.1", 65535, false)));
}

#[test]
fn repeated_verbose_is_the_same_as_one() {
    let once = parse_args(&line(&["app", "-v"]));
    let twice = parse_args(&line(&["app", "-v", "-v"]));
    let packed = parse_args(&line(&["app", "-vvv"]));
    assert_eq!(once, Ok(config("127.0.0.1", 8080, true)));
    assert_eq!(twice, once);
    assert_eq!(packed, once);
}

#[test]
fn the_program_name_is_not_a_flag() {
    assert_eq!(parse_args(&line(&["-v"])), Ok(config("127.0.0.1", 8080, false)));
    assert_eq!(parse_args(&line(&[])), Ok(config("127.0.0.1", 8080, false)));
}

#[test]
fn an_unknown_flag_is_a_failure() {
    let exit = parse_args(&line(&["app", "--nope"])).unwrap_err();
    assert_eq!(exit.code, 1);
    assert!(exit.is_failure());
    assert!(exit.message.contains("--nope"));
}

#[test]
fn a_flag_without_its_value_is_a_failure() {
    let exit = parse_args(&line(&["app", "--host"])).unwrap_err();
    assert_eq!(exit.code, 1);
    assert!(!exit.message.is_empty());
}

#[test]
fn a_stray_word_is_a_failure() {
    let exit = parse_args(&line(&["app", "serve"])).unwrap_err();
    assert_eq!(exit.code, 1);
}

#[test]
fn asking_for_help_ends_the_run_without_failure() {
    let exit = parse_args(&line(&["app", "--help"])).unwrap_err();
    assert_eq!(exit.code, 0);
    assert!(!exit.is_failure());
    assert!(exit.message.contains("--host"));
    assert!(exit.message.contains("--port"));
    assert!(exit.message.contains("-v"));
}

#[test]
fn asking_for_the_version_ends_the_run_without_failure() {
    let exit = parse_args(&line(&["app", "--version"])).unwrap_err();
    assert_eq!(exit.code, 0);
    assert!(!exit.is_failure());
}

#[test]
fn early_exit_codes_follow_the_kind_of_text() {
    assert_eq!(EarlyExit::new("usage".to_string(), true), EarlyExit { message: "usage".to_string(), code: 1 });
    assert_eq!(EarlyExit::new("help".to_string(), false), EarlyExit { message: "help".to_string(), code: 0 });
}

#[test]
fn odd_arguments_end_in_a_configuration_or_an_early_exit() {
    let words = [
        "", "-", "--", "---", "-=", "--=", "=", "--host", "--host=", "--host=a b", "--port",
        "--port=", "--port=80", "-v", "-vv", "-vx", "-x", "-é", "--é", "-v=1", "--verbose", "-h",
        "-V", "--help", "--version", "help", "é", "--hos", "--host=--port", "-\u{0}", " ", "--ho st",
        "80", "-1", "--port=-1", "-vvvvvvvvvvvvvvvvvvvvvvvvvvvvvvvv", "--HOST", "-- ", "\u{1F600}",
    ];
    let mut outcomes = 0;
    for first in words {
        for second in words {
            for third in ["", "--", "x", "-v", "--host", "--port=1"] {
                let parsed = parse_args(&line(&["app", first, second, third]));
                match parsed {
                    Ok(_) => {}
                    Err(exit) => {
                        assert!(exit.code == 0 || exit.code == 1);
                        assert_eq!(exit.is_failure(), exit.code == 1);
                    }
                }
                outcomes += 1;
            }
        }
    }
    assert_eq!(outcomes, words.len() * words.len() * 6);
}

#[test]
fn a_flag_given_twice_is_a_failure() {
    let exit = parse_args(&line(&["app", "--host", "a", "--host", "b"])).unwrap_err();
    assert_eq!(exit.code, 1);
    let exit = parse_args(&line(&["app", "--port", "1", "--port=2"])).unwrap_err();
    assert_eq!(exit.code, 1);
}

#[test]
fn what_follows_two_dashes_is_not_a_flag() {
    let exit = parse_args(&line(&["app", "--", "-v"])).unwrap_err();
    assert_eq!(exit.code, 1);
    assert_eq!(parse_args(&line(&["app", "-v", "--"])), Ok(config("127.0.0.1", 8080, true)));
}

#[test]
fn the_same_arguments_give_the_same_outcome() {
    let lines = [
        line(&["app"]),
        line(&["app", "--host", "h", "-vv"]),
        line(&["app", "--port", "x"]),
        line(&["other", "--port=9"]),
    ];
    for words in &lines {
        assert_eq!(parse_args(words), parse_args(words));
    }
    assert_eq!(parse_args(&line(&["app", "--port=9"])), parse_args(&line(&["other", "--port=9"])));
}
