use service_runner::logging::{log_filter, log_variable};

#[test]
fn a_verbose_run_logs_down_to_debug() {
    assert_eq!(log_filter(true), "debug");
}

#[test]
fn a_quiet_run_logs_down_to_info() {
    assert_eq!(log_filter(false), "info");
}

#[test]
fn the_logger_reads_its_filter_from_rust_log() {
    assert_eq!(log_variable(), "RUST_LOG");
}
