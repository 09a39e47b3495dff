//! What the service needs to call the identity service: where to ask, and
//! what its own token claims.

use crate::text::{join2, join3};
use vstd::prelude::*;
use vstd::string::*;

verus! {

/// How long a token of the service is valid, in seconds.
pub const TOKEN_SECONDS: i64 = 60;

/// The settings of the client of the identity service.
#[derive(Debug)]
pub struct AppServiceClient {
    pub base_url: String,
    pub jwt_secret: String,
    pub service_name: String,
}

/// What a token of the service claims: the service as subject, the type
/// `service`, and when the token ends, in seconds since the epoch.
#[derive(Debug)]
pub struct ServiceClaims {
    pub sub: String,
    pub type_: String,
    pub exp: i64,
}

impl AppServiceClient {
    /// The client for an identity service at `base_url`.
    pub fn new(base_url: String, jwt_secret: String, service_name: String) -> (r: AppServiceClient)
        ensures
            r.base_url == base_url,
            r.jwt_secret == jwt_secret,
            r.service_name == service_name,
    {
        AppServiceClient { base_url, jwt_secret, service_name }
    }

    /// The claims of a token made at the time `now`: it ends a minute
    /// later. `None` where that time cannot be written.
    pub fn token_claims(&self, now: i64) -> (r: Option<ServiceClaims>)
        ensures
            match r {
                Some(c) => now + TOKEN_SECONDS <= i64::MAX && c.exp == now + TOKEN_SECONDS && c.sub@
                    == self.service_name@ && c.type_@ == "service"@,
                None => now + TOKEN_SECONDS > i64::MAX,
            },
    {
        if now > i64::MAX - TOKEN_SECONDS {
            return None;
        }
        Some(
            ServiceClaims {
                sub: self.service_name.clone(),
                type_: String::from_str("service"),
                exp: now + TOKEN_SECONDS,
            },
        )
    }

    /// Where the principals of the user `uid` are asked for.
    pub fn prpls_url(&self, uid: &str) -> (r: String)
        ensures
            r@ == self.base_url@ + "/auth/prpls/"@ + uid@,
    {
        join3(self.base_url.as_str(), "/auth/prpls/", uid)
    }

    /// The `Authorization` header that carries a token.
    pub fn authorization(token: &str) -> (r: String)
        ensures
            r@ == "Bearer "@ + token@,
    {
        join2("Bearer ", token)
    }
}

/// Puts the client into its place, once: a second call is refused and
/// leaves the first client where it is.
pub fn init_app_service_client(
    place: &mut Option<AppServiceClient>,
    base_url: String,
    jwt_secret: String,
    service_name: String,
) -> (r: Result<(), &'static str>)
    ensures
        match r {
            Ok(()) => *old(place) is None && *final(place) is Some && final(place)->0.base_url
                == base_url && final(place)->0.jwt_secret == jwt_secret
                && final(place)->0.service_name == service_name,
            Err(msg) => *old(place) is Some && *final(place) == *old(place) && msg@
                == "AppServiceClient already initialized"@,
        },
{
    if place.is_some() {
        return Err("AppServiceClient already initialized");
    }
    *place = Some(AppServiceClient::new(base_url, jwt_secret, service_name));
    Ok(())
}

/// The client that was put into its place; nothing where none was.
pub fn get_app_service_client(place: &Option<AppServiceClient>) -> (r: Option<&AppServiceClient>)
    ensures
        match r {
            Some(client) => *place == Some(*client),
            None => *place is None,
        },
{
    place.as_ref()
}

} // verus!
