use crate::client::{uri_parses, uri_scheme_of, Client};
use crate::config::{endpoint_spec, Config};
use crate::error::Error;
use vstd::prelude::*;

verus! {

/// A configuration and the client for its endpoint.
#[derive(Debug)]
pub struct Notifier {
    config: Config,
    client: Client,
}

impl Notifier {
    /// The configuration that notices are built from.
    pub closed spec fn config_spec(&self) -> Config {
        self.config
    }

    /// The client that sends the notices.
    pub closed spec fn client_spec(&self) -> Client {
        self.client
    }

    /// A notifier for `config`, with a client for its endpoint; it fails where the
    /// endpoint is no valid URL.
    pub fn new(config: Config) -> (r: Result<Notifier, Error>)
        ensures
            r is Ok <==> uri_parses(
                endpoint_spec(config.host@, config.project_id@, config.project_key@),
            ),
            r matches Ok(n) ==> n.config_spec() == config,
            r matches Ok(n) ==> n.client_spec().url_spec() == endpoint_spec(
                config.host@,
                config.project_id@,
                config.project_key@,
            ) && n.client_spec().tls_spec() == (uri_scheme_of(
                endpoint_spec(config.host@, config.project_id@, config.project_key@),
            ) == Some("https"@)),
            r matches Err(e) ==> e is InvalidUri,
    {
        let endpoint = config.endpoint();
        match Client::new(endpoint.as_str()) {
            Ok(client) => Ok(Notifier { config, client }),
            Err(e) => Err(e),
        }
    }

    /// The configuration that notices are built from.
    pub fn config(&self) -> (r: &Config)
        ensures
            *r == self.config_spec(),
    {
        &self.config
    }

    /// The client that sends the notices.
    pub fn client(&self) -> (r: &Client)
        ensures
            *r == self.client_spec(),
    {
        &self.client
    }
}

} // verus!
