//! The service's settings and what is derived from them.

use crate::text::{decimal, decimal_string, join2, join3, str_eq};
use vstd::prelude::*;
use vstd::string::*;

verus! {

/// The settings of the service.
#[derive(Debug)]
pub struct Config {
    /// Address to bind to.
    pub host: String,
    /// Port of the HTTP surface.
    pub port: u16,
    /// Port of the session stream.
    pub websocket_port: u16,
    /// `development`, `staging` or `production`.
    pub environment: String,
    /// Verbosity of the log.
    pub log_level: String,
    pub cloud_pod: Option<String>,
    /// The name under which this service acts.
    pub cloud_service_name: String,
    pub cloud_service_domain: String,
    /// Host of the identity service.
    pub cloud_app_service_domain: String,
    pub cloud_root_domain: String,
    /// Allowed origins, separated by commas.
    pub cloud_cors_origins: String,
    /// Secret that tokens are verified with.
    pub cloud_auth_jwt_secret: Option<String>,
    pub gcp_project_id: Option<String>,
    /// Connection string of the store.
    pub db_url: Option<String>,
}

fn default_host() -> (r: String)
    ensures
        r@ == "0.0.0.0"@,
{
    String::from_str("0.0.0.0")
}

fn default_port() -> (r: u16)
    ensures
        r == 3000,
{
    3000
}

fn default_websocket_port() -> (r: u16)
    ensures
        r == 9001,
{
    9001
}

fn default_log_level() -> (r: String)
    ensures
        r@ == "info"@,
{
    String::from_str("info")
}

fn default_service_name() -> (r: String)
    ensures
        r@ == "colabri-doc"@,
{
    String::from_str("colabri-doc")
}

fn default_service_domain() -> (r: String)
    ensures
        r@ == "doc.colabri.cloud"@,
{
    String::from_str("doc.colabri.cloud")
}

fn default_app_service_domain() -> (r: String)
    ensures
        r@ == "app.colabri.cloud"@,
{
    String::from_str("app.colabri.cloud")
}

fn default_root_service_domain() -> (r: String)
    ensures
        r@ == "colabri.cloud"@,
{
    String::from_str("colabri.cloud")
}

fn default_cors_origins() -> (r: String)
    ensures
        r@
            == "http://localhost:*,http://*.colabri-local.cloud,http://colabri-local.cloud,https://*.colabri.cloud,https://colabri.cloud"@,
{
    String::from_str(
        "http://localhost:*,http://*.colabri-local.cloud,http://colabri-local.cloud,https://*.colabri.cloud,https://colabri.cloud",
    )
}

fn default_environment() -> (r: String)
    ensures
        r@ == "development"@,
{
    String::from_str("development")
}

/// The address of the HTTP surface of `c`: host, colon, port in decimal.
pub open spec fn server_address_of(c: Config) -> Seq<char> {
    c.host@ + ":"@ + decimal(c.port as nat)
}

/// The address of the identity service for `c`: the local one in
/// development, else the configured host over HTTP.
pub open spec fn app_service_url_of(c: Config) -> Seq<char> {
    if c.environment@ == "development"@ {
        "http://localhost:8080"@
    } else {
        "http://"@ + c.cloud_app_service_domain@
    }
}

impl Config {
    /// The address that the HTTP surface binds to.
    pub fn server_address(&self) -> (r: String)
        ensures
            r@ == server_address_of(*self),
    {
        let port = decimal_string(self.port as u64);
        join3(self.host.as_str(), ":", port.as_str())
    }

    /// The port of the session stream.
    pub fn websocket_port(&self) -> (r: u16)
        ensures
            r == self.websocket_port,
    {
        self.websocket_port
    }

    /// The address of the identity service.
    pub fn app_service_url(&self) -> (r: String)
        ensures
            r@ == app_service_url_of(*self),
    {
        if str_eq(self.environment.as_str(), "development") {
            String::from_str("http://localhost:8080")
        } else {
            join2("http://", self.cloud_app_service_domain.as_str())
        }
    }
}

impl Default for Config {
    /// The settings used where the environment gives none.
    fn default() -> (r: Config)
        ensures
            r.host@ == "0.0.0.0"@,
            r.port == 3000,
            r.websocket_port == 9001,
            r.environment@ == "development"@,
            r.log_level@ == "info"@,
            r.cloud_pod is None,
            r.cloud_service_name@ == "colabri-doc"@,
            r.cloud_service_domain@ == "doc.colabri.cloud"@,
            r.cloud_app_service_domain@ == "app.colabri.cloud"@,
            r.cloud_root_domain@ == "colabri.cloud"@,
            r.cloud_auth_jwt_secret is None,
            r.gcp_project_id is None,
            r.db_url is None,
    {
        Config {
            host: default_host(),
            port: default_port(),
            websocket_port: default_websocket_port(),
            environment: default_environment(),
            log_level: default_log_level(),
            cloud_pod: None,
            cloud_service_name: default_service_name(),
            cloud_service_domain: default_service_domain(),
            cloud_app_service_domain: default_app_service_domain(),
            cloud_root_domain: default_root_service_domain(),
            cloud_cors_origins: default_cors_origins(),
            cloud_auth_jwt_secret: None,
            gcp_project_id: None,
            db_url: None,
        }
    }
}

/// Puts the settings into their place, once: a second call is refused and
/// leaves the first settings where they are.
pub fn init_config(place: &mut Option<Config>, config: Config) -> (r: Result<(), &'static str>)
    ensures
        match r {
            Ok(()) => *old(place) is None && *final(place) == Some(config),
            Err(msg) => *old(place) is Some && *final(place) == *old(place) && msg@
                == "Configuration already initialized"@,
        },
{
    if place.is_some() {
        return Err("Configuration already initialized");
    }
    *place = Some(config);
    Ok(())
}

/// The settings that were put into their place.
pub fn get_config(place: &Option<Config>) -> (r: &Config)
    requires
        *place is Some,
    ensures
        *r == place->0,
{
    place.as_ref().unwrap()
}

} // verus!
