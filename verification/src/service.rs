//! The shared state of a run and the service that lives on it.

use crate::config::Config;
use crate::error::MyError;
use reqwest::{Client, ClientBuilder};
use std::sync::Arc;
use vstd::prelude::*;

verus! {

/// `reqwest::Client`: the handle for outgoing HTTP requests. It is carried
/// along and never looked into.
#[verifier::external_type_specification]
#[verifier::external_body]
pub struct ExClient(Client);

/// `reqwest::ClientBuilder`: the settings a client is built from.
#[verifier::external_type_specification]
#[verifier::external_body]
pub struct ExClientBuilder(ClientBuilder);

/// `reqwest::Error`: why no client could be built.
#[verifier::external_type_specification]
#[verifier::external_body]
pub struct ExClientError(reqwest::Error);

/// `reqwest::Client::builder` gives the default settings. Nothing is claimed
/// of them.
pub assume_specification[ Client::builder ]() -> (builder: ClientBuilder)
;

/// `reqwest::ClientBuilder::build` makes a client from the settings, or
/// fails where the machine does not let it. Nothing is claimed of which.
pub assume_specification[ ClientBuilder::build ](builder: ClientBuilder) -> (built: Result<
    Client,
    reqwest::Error,
>)
;

/// Builds a client for outgoing requests with the default settings. Whether
/// that succeeds is up to the machine; where it does not, the error is
/// [`MyError::Unknown`].
pub fn new_client() -> (outcome: Result<Client, MyError>)
    ensures
        outcome matches Err(error) ==> error == MyError::Unknown,
{
    client_or_unknown(Client::builder().build())
}

/// What an attempt to build a client comes to: the client itself where one
/// was built, and [`MyError::Unknown`] where none was.
pub fn client_or_unknown(built: Result<Client, reqwest::Error>) -> (outcome: Result<
    Client,
    MyError,
>)
    ensures
        built matches Ok(client) ==> outcome == Ok::<Client, MyError>(client),
        built is Err ==> outcome == Err::<Client, MyError>(MyError::Unknown),
{
    match built {
        Ok(client) => Ok(client),
        Err(_) => Err(MyError::Unknown),
    }
}

/// What every part of a run shares: the configuration, which is only read,
/// and the client for outgoing requests, which the state owns.
#[derive(Debug)]
pub struct AppState {
    pub config: Arc<Config>,
    pub client: Client,
}

impl AppState {
    /// The state made of a configuration and a client that was built for it.
    pub fn with_client(config: Arc<Config>, client: Client) -> (state: AppState)
        ensures
            state.config == config,
            state.client == client,
    {
        AppState { config, client }
    }

    /// Builds a client with the default settings and makes the state with
    /// it. If no client can be built there is no state, and the error is
    /// [`MyError::Unknown`].
    pub fn new(config: Arc<Config>) -> (outcome: Result<AppState, MyError>)
        ensures
            outcome matches Ok(state) ==> state.config == config,
            outcome matches Err(error) ==> error == MyError::Unknown,
    {
        match new_client() {
            Ok(client) => Ok(AppState::with_client(config, client)),
            Err(error) => Err(error),
        }
    }
}

/// The service of a run. It holds the shared state and does nothing with it
/// yet: starting and stopping succeed at once.
#[derive(Debug)]
pub struct MyService {
    pub state: Arc<AppState>,
}

impl MyService {
    /// The service on the given state.
    pub fn new(state: Arc<AppState>) -> (service: MyService)
        ensures
            service.state == state,
    {
        MyService { state }
    }

    /// Starts the service. There is nothing to start, so this succeeds on
    /// every call.
    pub fn start(&self) -> (outcome: Result<(), MyError>)
        ensures
            outcome is Ok,
    {
        Ok(())
    }

    /// Stops the service. There is nothing to stop, so this succeeds on
    /// every call.
    pub fn stop(&self) -> (outcome: Result<(), MyError>)
        ensures
            outcome is Ok,
    {
        Ok(())
    }
}

} // verus!
