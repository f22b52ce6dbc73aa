use service_runner::config::Config;
use service_runner::service::{AppState, MyService};
use service_runner::startup::Startup;
use std::sync::Arc;

fn sample_config() -> Config {
    Config { host: "localhost".to_string(), port: 8081, verbose: true }
}

fn config_in(startup: &Startup) -> Option<&Config> {
    match startup {
        Startup::Empty => None,
        Startup::Configured(config) => Some(config),
        Startup::Ready(state) => Some(&state.config),
        Startup::Serving(service) => Some(&service.state.config),
    }
}

fn state_in(startup: &Startup) -> Option<&AppState> {
    match startup {
        Startup::Ready(state) => Some(state),
        Startup::Serving(service) => Some(&service.state),
        _ => None,
    }
}

fn service_in(startup: &Startup) -> Option<&MyService> {
    match startup {
        Startup::Serving(service) => Some(service),
        _ => None,
    }
}

fn unwrap_ok(outcome: Result<Startup, Startup>) -> Startup {
    match outcome {
        Ok(next) => next,
        Err(_) => panic!("the step was refused"),
    }
}

fn unwrap_err(outcome: Result<Startup, Startup>) -> Startup {
    match outcome {
        Ok(_) => panic!("the step was taken"),
        Err(same) => same,
    }
}

#[test]
fn at_the_beginning_nothing_exists() {
    let startup = Startup::new();
    assert!(matches!(startup, Startup::Empty));
    assert!(config_in(&startup).is_none());
    assert!(state_in(&startup).is_none());
    assert!(service_in(&startup).is_none());
    assert_eq!(startup.verbose(), None);
    assert!(startup.into_service().is_none());
}

#[test]
fn the_three_stages_come_in_order() {
    let startup = unwrap_ok(Startup::new().configure(sample_config()));
    assert_eq!(config_in(&startup), Some(&sample_config()));
    assert!(state_in(&startup).is_none());
    assert!(service_in(&startup).is_none());
    assert_eq!(startup.verbose(), Some(true));

    let startup = unwrap_ok(startup.build_state(reqwest::Client::new()));
    assert_eq!(config_in(&startup), Some(&sample_config()));
    assert!(state_in(&startup).is_some());
    assert!(service_in(&startup).is_none());

    let startup = unwrap_ok(startup.build_service());
    assert_eq!(config_in(&startup), Some(&sample_config()));
    assert!(state_in(&startup).is_some());
    assert!(service_in(&startup).is_some());
    assert_eq!(startup.verbose(), Some(true));

    let service = startup.into_service().expect("the service exists");
    assert_eq!(*service.state.config, sample_config());
    assert_eq!(service.start(), Ok(()));
}

#[test]
fn the_state_cannot_come_before_the_configuration() {
    let startup = unwrap_err(Startup::new().build_state(reqwest::Client::new()));
    assert!(matches!(startup, Startup::Empty));
}

#[test]
fn the_service_cannot_come_before_the_state() {
    let startup = unwrap_err(Startup::new().build_service());
    assert!(matches!(startup, Startup::Empty));
    let configured = unwrap_ok(startup.configure(sample_config()));
    let configured = unwrap_err(configured.build_service());
    assert!(matches!(configured, Startup::Configured(_)));
    assert!(service_in(&configured).is_none());
}

#[test]
fn the_configuration_is_taken_in_once() {
    let other = Config { host: "elsewhere".to_string(), port: 1, verbose: false };
    let configured = unwrap_ok(Startup::new().configure(sample_config()));
    let configured = unwrap_err(configured.configure(other.clone()));
    assert_eq!(config_in(&configured), Some(&sample_config()));
    let ready = unwrap_ok(configured.build_state(reqwest::Client::new()));
    let ready = unwrap_err(ready.configure(other.clone()));
    assert_eq!(config_in(&ready), Some(&sample_config()));
    let serving = unwrap_ok(ready.build_service());
    let serving = unwrap_err(serving.configure(other));
    assert_eq!(config_in(&serving), Some(&sample_config()));
}

#[test]
fn the_state_and_the_service_are_built_once() {
    let ready = unwrap_ok(unwrap_ok(Startup::new().configure(sample_config())).build_state(reqwest::Client::new()));
    let held = match &ready {
        Startup::Ready(state) => state.clone(),
        _ => panic!("the state exists"),
    };
    let ready = unwrap_err(ready.build_state(reqwest::Client::new()));
    assert!(Arc::ptr_eq(&held, match &ready {
        Startup::Ready(state) => state,
        _ => panic!("the state exists"),
    }));
    let serving = unwrap_ok(ready.build_service());
    let serving = unwrap_err(serving.build_service());
    let serving = unwrap_err(serving.build_state(reqwest::Client::new()));
    let service = serving.into_service().expect("the service exists");
    assert!(Arc::ptr_eq(&held, &service.state));
}

#[test]
fn the_service_rests_on_the_state_and_the_state_on_the_configuration() {
    let startup = unwrap_ok(Startup::new().configure(sample_config()));
    let config = match &startup {
        Startup::Configured(config) => config.clone(),
        _ => panic!("the configuration exists"),
    };
    let startup = unwrap_ok(startup.build_state(reqwest::Client::new()));
    let state = match &startup {
        Startup::Ready(state) => state.clone(),
        _ => panic!("the state exists"),
    };
    assert!(Arc::ptr_eq(&state.config, &config));
    let service = unwrap_ok(startup.build_service()).into_service().unwrap();
    assert!(Arc::ptr_eq(&service.state, &state));
    assert!(Arc::ptr_eq(&service.state.config, &config));
}
