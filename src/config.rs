use vstd::prelude::*;

verus! {

/// The port served on when the configuration names none.
pub const DEFAULT_PORT: u16 = 9001;

/// The server section of the configuration.
#[derive(Clone, Copy, Debug, PartialEq, Eq, Structural)]
pub struct ServerConfig {
    pub port: u16,
}

/// One configured mapping: an OSC address, the name of the key it taps,
/// and the string argument it must carry, if any.
#[derive(Debug)]
pub struct EventKeyMapping {
    pub event: String,
    pub key: String,
    pub value: Option<String>,
}

/// The whole configuration, mappings in the order they were written.
#[derive(Debug)]
pub struct Config {
    pub server: Option<ServerConfig>,
    pub mappings: Vec<EventKeyMapping>,
}

/// The port that a configuration with server section `server` serves on.
pub open spec fn port_of(server: Option<ServerConfig>) -> u16 {
    match server {
        Some(s) => s.port,
        None => DEFAULT_PORT,
    }
}

impl Config {
    /// The configuration written when none exists: the default port and no mappings.
    pub fn default_config() -> (r: Config)
        ensures
            r.server == Some(ServerConfig { port: DEFAULT_PORT }),
            r.mappings@.len() == 0,
    {
        Config { server: Some(ServerConfig { port: DEFAULT_PORT }), mappings: Vec::new() }
    }

    /// Gives a configuration without a server section the default one.
    pub fn fill_defaults(&mut self)
        ensures
            final(self).server == Some(ServerConfig { port: port_of(old(self).server) }),
            final(self).mappings == old(self).mappings,
    {
        if self.server.is_none() {
            self.server = Some(ServerConfig { port: DEFAULT_PORT });
        }
    }

    /// The port to serve on.
    pub fn port(&self) -> (r: u16)
        ensures
            r == port_of(self.server),
    {
        match self.server {
            Some(s) => s.port,
            None => DEFAULT_PORT,
        }
    }
}

} // verus!
