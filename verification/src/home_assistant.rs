//! The sensor service of the secondary source: where a sensor's state is
//! asked for, and what comes back.

use vstd::prelude::*;
use vstd::string::StringExecFns;

verus! {

/// The state of one sensor as the service reports it.
#[derive(Default, Debug, Clone, PartialEq)]
pub struct HASensor {
    /// The identifier of the sensor.
    pub entity_id: String,
    /// The state of the sensor, a number written as text.
    pub state: String,
    /// When the state last changed.
    pub last_changed: String,
    /// When the state was last reported.
    pub last_reported: String,
    /// When the state was last updated.
    pub last_updated: String,
}

/// Why no request can be made.
#[derive(Debug, Clone, Copy, PartialEq, Eq, Structural)]
pub enum ApiError {
    /// No address of the service is configured.
    NoConnection,
}

impl ApiError {
    /// The text that describes the error.
    pub fn message(&self) -> (text: String)
        ensures
            text@ == "No HA connection"@,
    {
        String::from_str("No HA connection")
    }
}

/// The path under which the service reports the state of a sensor, before
/// the sensor's identifier.
pub open spec fn states_path() -> Seq<char> {
    "/api/states/"@
}

/// The address and the token of the sensor service.
#[derive(Debug)]
pub struct HomeAssistantAPI {
    endpoint_url: String,
    auth_token: String,
}

impl HomeAssistantAPI {
    /// The address of the service, empty where none is configured.
    pub closed spec fn endpoint(&self) -> Seq<char> {
        self.endpoint_url@
    }

    /// The token that requests bear.
    pub closed spec fn token(&self) -> Seq<char> {
        self.auth_token@
    }

    /// The service at `endpoint_url`, asked with `auth_token`; a missing
    /// setting counts as an empty one.
    pub fn new(endpoint_url: Option<String>, auth_token: Option<String>) -> (api: Self)
        ensures
            api.endpoint() == match endpoint_url {
                Some(url) => url@,
                None => Seq::empty(),
            },
            api.token() == match auth_token {
                Some(token) => token@,
                None => Seq::empty(),
            },
    {
        let endpoint_url = match endpoint_url {
            Some(url) => url,
            None => String::new(),
        };
        let auth_token = match auth_token {
            Some(token) => token,
            None => String::new(),
        };
        Self { endpoint_url, auth_token }
    }

    /// The token that requests bear.
    pub fn auth_token(&self) -> (token: &String)
        ensures
            token@ == self.token(),
    {
        &self.auth_token
    }

    /// The address at which the state of the sensor `sensor_path` is asked
    /// for. Without an address of the service there is none.
    pub fn sensor_url(&self, sensor_path: &str) -> (res: Result<String, ApiError>)
        ensures
            res is Err <==> self.endpoint().len() == 0,
            res matches Ok(url) ==> url@ == self.endpoint() + states_path() + sensor_path@,
            res matches Err(e) ==> e == ApiError::NoConnection,
    {
        if self.endpoint_url.as_str().is_empty() {
            return Err(ApiError::NoConnection);
        }
        let mut url = self.endpoint_url.clone();
        url.append("/api/states/");
        url.append(sensor_path);
        Ok(url)
    }
}

} // verus!
