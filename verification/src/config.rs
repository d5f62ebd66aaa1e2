use vstd::prelude::*;

use crate::errors::ConfigError;

verus! {

/// The application's settings.  Loading them from files and environment
/// variables is the surrounding layer's task; validation is the library's.
pub struct AppConfig {
    pub host: String,
    pub port: u16,
    pub bark_url: String,
    pub device_key: String,
    pub password: String,
}

/// The address the server binds to when none is configured.
pub fn default_host() -> (s: String)
    ensures
        s@ == "0.0.0.0"@,
{
    "0.0.0.0".to_owned()
}

/// The port the server listens on when none is configured.
pub fn default_port() -> (p: u16)
    ensures
        p == 3000,
{
    3000
}

/// The gateway endpoint used when none is configured.
pub fn default_bark_url() -> (s: String)
    ensures
        s@ == "https://api.day.app"@,
{
    "https://api.day.app".to_owned()
}

impl Default for AppConfig {
    fn default() -> (c: Self)
        ensures
            c.host@ == "0.0.0.0"@,
            c.port == 3000,
            c.bark_url@ == "https://api.day.app"@,
            c.device_key@ == Seq::<char>::empty(),
            c.password@ == Seq::<char>::empty(),
    {
        AppConfig {
            host: default_host(),
            port: default_port(),
            bark_url: default_bark_url(),
            device_key: String::new(),
            password: String::new(),
        }
    }
}

impl AppConfig {
    /// A configuration is usable exactly when it names a device key.
    pub fn validate(&self) -> (r: Result<(), ConfigError>)
        ensures
            r is Ok <==> self.device_key@.len() != 0,
            r is Err ==> r == Result::<(), ConfigError>::Err(ConfigError::MissingDeviceKey),
    {
        if self.device_key.as_str().is_empty() {
            Err(ConfigError::MissingDeviceKey)
        } else {
            Ok(())
        }
    }
}

} // verus!
