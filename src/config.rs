//! Service configuration, resolved from optional settings.
use vstd::prelude::*;

verus! {

/// Settings of the service.
#[derive(Clone, Debug)]
pub struct Config {
    pub database_url: String,
    pub server_host: String,
    pub server_port: u16,
    pub short_code_length: usize,
    pub base_url: String,
}

/// Port used when none is configured.
pub const DEFAULT_SERVER_PORT: u16 = 8080;

/// Short-code length used when none is configured.
pub const DEFAULT_SHORT_CODE_LENGTH: usize = 6;

impl Config {
    /// Builds the configuration from settings that may be absent. The database and base
    /// addresses are required; the host defaults to `127.0.0.1`, the port to 8080 and the
    /// short-code length to 6.
    pub fn from_settings(
        database_url: Option<String>,
        server_host: Option<String>,
        server_port: Option<u16>,
        short_code_length: Option<usize>,
        base_url: Option<String>,
    ) -> (r: Option<Config>)
        ensures
            r is Some <==> (database_url is Some && base_url is Some),
            r matches Some(c) ==> {
                &&& c.database_url == database_url->0
                &&& c.base_url == base_url->0
                &&& server_host matches Some(h) ==> c.server_host == h
                &&& server_host is None ==> c.server_host@ == "127.0.0.1"@
                &&& c.server_port == match server_port {
                    Some(p) => p,
                    None => DEFAULT_SERVER_PORT,
                }
                &&& c.short_code_length == match short_code_length {
                    Some(n) => n,
                    None => DEFAULT_SHORT_CODE_LENGTH,
                }
            },
    {
        let database_url = match database_url {
            Some(u) => u,
            None => return None,
        };
        let base_url = match base_url {
            Some(u) => u,
            None => return None,
        };
        let server_host = match server_host {
            Some(h) => h,
            None => "127.0.0.1".to_string(),
        };
        let server_port = match server_port {
            Some(p) => p,
            None => DEFAULT_SERVER_PORT,
        };
        let short_code_length = match short_code_length {
            Some(n) => n,
            None => DEFAULT_SHORT_CODE_LENGTH,
        };
        Some(Config { database_url, server_host, server_port, short_code_length, base_url })
    }
}

} // verus!
