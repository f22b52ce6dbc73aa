//! The order in which a run comes into being: first the configuration, then
//! the shared state built on it, then the service built on the state. Each
//! stage holds what the stages before it made, so nothing can be seen before
//! what it rests on, and no stage is entered twice.

use crate::config::Config;
use crate::service::{AppState, MyService};
use reqwest::Client;
use std::sync::Arc;
use vstd::prelude::*;

verus! {

/// How far the construction has come.
#[derive(Debug)]
pub enum Startup {
    /// Nothing exists yet.
    Empty,
    /// The configuration exists.
    Configured(Arc<Config>),
    /// The shared state exists; it holds the configuration.
    Ready(Arc<AppState>),
    /// The service exists; it holds the shared state.
    Serving(MyService),
}

impl Startup {
    /// The configuration, once it exists.
    pub open spec fn config(self) -> Option<Config> {
        match self {
            Startup::Empty => None,
            Startup::Configured(config) => Some(*config),
            Startup::Ready(state) => Some(*state.config),
            Startup::Serving(service) => Some(*service.state.config),
        }
    }

    /// The shared state, once it exists.
    pub open spec fn state(self) -> Option<AppState> {
        match self {
            Startup::Empty => None,
            Startup::Configured(_) => None,
            Startup::Ready(state) => Some(*state),
            Startup::Serving(service) => Some(*service.state),
        }
    }

    /// The service, once it exists.
    pub open spec fn service(self) -> Option<MyService> {
        match self {
            Startup::Serving(service) => Some(service),
            _ => None,
        }
    }

    /// What taking the configuration in leads to: the next stage at the
    /// beginning, and a refusal that hands the startup back at any later
    /// stage.
    pub open spec fn configured(self, config: Config) -> Result<Startup, Startup> {
        match self {
            Startup::Empty => Ok(Startup::Configured(Arc::new(config))),
            _ => Err(self),
        }
    }

    /// What building the shared state leads to: the next stage where the
    /// configuration exists and the state does not, and a refusal that hands
    /// the startup back at any other stage.
    pub open spec fn with_state(self, client: Client) -> Result<Startup, Startup> {
        match self {
            Startup::Configured(config) => Ok(
                Startup::Ready(Arc::new(AppState { config, client })),
            ),
            _ => Err(self),
        }
    }

    /// What building the service leads to: the last stage where the shared
    /// state exists and the service does not, and a refusal that hands the
    /// startup back at any other stage.
    pub open spec fn with_service(self) -> Result<Startup, Startup> {
        match self {
            Startup::Ready(state) => Ok(Startup::Serving(MyService { state })),
            _ => Err(self),
        }
    }

    /// The beginning: nothing exists.
    pub fn new() -> (startup: Startup)
        ensures
            startup == Startup::Empty,
    {
        Startup::Empty
    }

    /// Takes the configuration in. This is possible once, at the beginning;
    /// later the startup is handed back as it is.
    pub fn configure(self, config: Config) -> (outcome: Result<Startup, Startup>)
        ensures
            outcome == self.configured(config),
    {
        match self {
            Startup::Empty => Ok(Startup::Configured(Arc::new(config))),
            other => Err(other),
        }
    }

    /// Builds the shared state on the configuration, with the given client.
    /// This is possible once, when the configuration exists and the state
    /// does not; otherwise the startup is handed back as it is.
    pub fn build_state(self, client: Client) -> (outcome: Result<Startup, Startup>)
        ensures
            outcome == self.with_state(client),
    {
        match self {
            Startup::Configured(config) => Ok(
                Startup::Ready(Arc::new(AppState::with_client(config, client))),
            ),
            other => Err(other),
        }
    }

    /// Builds the service on the shared state. This is possible once, when
    /// the state exists and the service does not; otherwise the startup is
    /// handed back as it is.
    pub fn build_service(self) -> (outcome: Result<Startup, Startup>)
        ensures
            outcome == self.with_service(),
    {
        match self {
            Startup::Ready(state) => Ok(Startup::Serving(MyService::new(state))),
            other => Err(other),
        }
    }

    /// Hands out the service, if the construction has come that far.
    pub fn into_service(self) -> (service: Option<MyService>)
        ensures
            service == self.service(),
    {
        match self {
            Startup::Serving(service) => Some(service),
            _ => None,
        }
    }

    /// Whether the configuration asks for verbose logging, once it exists.
    pub fn verbose(&self) -> (verbose: Option<bool>)
        ensures
            verbose == match self.config() {
                Some(config) => Some(config.verbose),
                None => None,
            },
    {
        match self {
            Startup::Empty => None,
            Startup::Configured(config) => Some(config.verbose),
            Startup::Ready(state) => Some(state.config.verbose),
            Startup::Serving(service) => Some(service.state.config.verbose),
        }
    }
}

/// Nothing is there before what it rests on: where the service exists, so
/// does the shared state, and it is the one the service holds; where the
/// shared state exists, so does the configuration, and it is the one the
/// state holds.
pub proof fn lemma_nothing_before_its_ground(startup: Startup)
    ensures
        startup.service() is Some ==> startup.state() is Some,
        startup.state() is Some ==> startup.config() is Some,
        startup.service() matches Some(service) ==> startup.state() == Some(*service.state),
        startup.state() matches Some(state) ==> startup.config() == Some(*state.config),
{
}

/// The stages come in order and each comes once. A step that succeeds adds
/// exactly the next thing: the configuration where nothing existed, the
/// shared state where only the configuration existed, the service where the
/// state existed and the service did not. It keeps what existed before. A
/// step out of turn is refused and hands the startup back unchanged.
pub proof fn lemma_stages_come_in_order(startup: Startup, config: Config, client: Client)
    ensures
        startup.configured(config) matches Ok(next) ==> startup.config() is None && next.config()
            == Some(config) && next.state() is None,
        startup.with_state(client) matches Ok(next) ==> startup.config() is Some
            && startup.state() is None && next.config() == startup.config() && next.state()
            == Some(AppState { config: Arc::new(startup.config()->0), client }) && next.service()
            is None,
        startup.with_service() matches Ok(next) ==> startup.state() is Some && startup.service()
            is None && next.config() == startup.config() && next.state() == startup.state()
            && next.service() is Some,
        startup.configured(config) matches Err(same) ==> same == startup && !(startup is Empty),
        startup.with_state(client) matches Err(same) ==> same == startup && !(startup
            is Configured),
        startup.with_service() matches Err(same) ==> same == startup && !(startup is Ready),
{
}

} // verus!
