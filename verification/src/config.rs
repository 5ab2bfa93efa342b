//! The server's settings, from the values of its environment variables.
use vstd::prelude::*;

use crate::text::{concat3, str_eq};

verus! {

/// `ENVIRONMENT` says the server runs in production.
pub open spec fn is_production(environment: Option<String>) -> bool {
    environment matches Some(e) && e@ == "production"@
}

/// Where the server listens and which API it talks to.
#[derive(Debug, Clone)]
pub struct ServerSettings {
    pub host: String,
    pub port: String,
    pub api_url: String,
}

impl ServerSettings {
    /// The settings from `ENVIRONMENT`, `HOST`, `PORT` and `GRAPHQL_API_TARGET`
    /// (each `None` when unset). In production the host and port are required and
    /// the API target defaults to the cluster's service; elsewhere the server
    /// listens on 127.0.0.1:8088 and talks to a local API.
    pub fn from_env(
        environment: Option<String>,
        host: Option<String>,
        port: Option<String>,
        api_target: Option<String>,
    ) -> (r: Self)
        requires
            is_production(environment) ==> host is Some && port is Some,
        ensures
            is_production(environment) ==> {
                &&& r.host == host->0
                &&& r.port == port->0
                &&& r.api_url@ == match api_target {
                    Some(t) => t@,
                    None => "http://security-converter-api.security-converter.svc.cluster.local/graphql"@,
                }
            },
            !is_production(environment) ==> {
                &&& r.host@ == "127.0.0.1"@
                &&& r.port@ == "8088"@
                &&& r.api_url@ == "http://127.0.0.1:8080/graphql"@
            },
    {
        let production = match &environment {
            Some(e) => str_eq(e.as_str(), "production"),
            None => false,
        };
        if production {
            let host = match host {
                Some(h) => h,
                None => String::new(),
            };
            let port = match port {
                Some(p) => p,
                None => String::new(),
            };
            let api_url = match api_target {
                Some(t) => t,
                None => "http://security-converter-api.security-converter.svc.cluster.local/graphql".to_owned(),
            };
            ServerSettings { host, port, api_url }
        } else {
            ServerSettings {
                host: "127.0.0.1".to_owned(),
                port: "8088".to_owned(),
                api_url: "http://127.0.0.1:8080/graphql".to_owned(),
            }
        }
    }

    /// The address the server binds: host, a colon, port.
    pub fn bind_address(&self) -> (r: String)
        ensures
            r@ == self.host@ + ":"@ + self.port@,
    {
        concat3(self.host.as_str(), ":", self.port.as_str())
    }
}

} // verus!
