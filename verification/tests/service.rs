use service_runner::config::Config;
use service_runner::error::MyError;
use service_runner::service::{client_or_unknown, new_client, AppState, MyService};
use std::sync::Arc;

fn sample_config() -> Arc<Config> {
    Arc::new(Config { host: "example.org".to_string(), port: 9000, verbose: true })
}

#[test]
fn the_state_holds_the_configuration_it_was_built_on() {
    let config = sample_config();
    let state = AppState::new(config.clone()).expect("a client with default settings");
    assert!(Arc::ptr_eq(&state.config, &config));
    assert_eq!(*state.config, *config);
}

#[test]
fn the_state_takes_a_client_built_elsewhere() {
    let config = sample_config();
    let state = AppState::with_client(config.clone(), reqwest::Client::new());
    assert!(Arc::ptr_eq(&state.config, &config));
    assert_eq!(state.config.port, 9000);
}

#[test]
fn the_configuration_is_shared_not_copied() {
    let config = sample_config();
    let first = AppState::new(config.clone()).unwrap();
    let second = AppState::new(config.clone()).unwrap();
    assert!(Arc::ptr_eq(&first.config, &second.config));
    assert_eq!(Arc::strong_count(&config), 3);
}

#[test]
fn the_service_holds_the_state_it_was_built_on() {
    let state = Arc::new(AppState::new(sample_config()).unwrap());
    let service = MyService::new(state.clone());
    assert!(Arc::ptr_eq(&service.state, &state));
    assert_eq!(service.state.config.host, "example.org");
}

#[test]
fn start_succeeds() {
    let service = MyService::new(Arc::new(AppState::new(sample_config()).unwrap()));
    assert_eq!(service.start(), Ok(()));
}

#[test]
fn stop_succeeds() {
    let service = MyService::new(Arc::new(AppState::new(sample_config()).unwrap()));
    assert_eq!(service.stop(), Ok(()));
}

#[test]
fn start_and_stop_leave_the_state_as_it_was() {
    let state = Arc::new(AppState::new(sample_config()).unwrap());
    let service = MyService::new(state.clone());
    service.start().unwrap();
    service.stop().unwrap();
    assert_eq!(*service.state.config, *sample_config());
    assert_eq!(Arc::strong_count(&state), 2);
}

#[test]
fn a_client_that_was_built_is_handed_on() {
    let built = reqwest::Client::builder().build();
    assert!(built.is_ok());
    assert!(client_or_unknown(built).is_ok());
    assert!(new_client().is_ok());
}

#[test]
fn a_client_that_could_not_be_built_is_an_unknown_error() {
    let built = reqwest::Client::builder().user_agent("line\nbreak").build();
    assert!(built.is_err());
    assert!(matches!(client_or_unknown(built), Err(MyError::Unknown)));
}
