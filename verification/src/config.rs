//! Server configuration values.

use vstd::prelude::*;
use vstd::string::StringExecFns;

verus! {

/// Configuration data for the server side: where to listen and how many
/// connections to accept.
#[derive(Debug)]
pub struct Configuration {
    /// The address the server binds.
    pub server_address: String,
    /// The port the server listens on.
    pub port: u16,
    /// The most connections served at once.
    pub max_connections: u32,
}

impl Configuration {
    /// Updates the server address in the configuration.
    pub fn update_server_address(&mut self, new_address: String)
        ensures
            final(self).server_address@ == new_address@,
            final(self).port == old(self).port,
            final(self).max_connections == old(self).max_connections,
    {
        self.server_address = new_address;
    }

    /// Updates the port in the configuration.
    pub fn update_port(&mut self, new_port: u16)
        ensures
            final(self).port == new_port,
            final(self).server_address@ == old(self).server_address@,
            final(self).max_connections == old(self).max_connections,
    {
        self.port = new_port;
    }

    /// Updates the maximum connections in the configuration.
    pub fn update_max_connections(&mut self, new_max_connections: u32)
        ensures
            final(self).max_connections == new_max_connections,
            final(self).server_address@ == old(self).server_address@,
            final(self).port == old(self).port,
    {
        self.max_connections = new_max_connections;
    }

    /// Loads the default configuration values.
    pub fn load_default() -> (r: Configuration)
        ensures
            r.server_address@ == "localhost"@,
            r.port == 8080,
            r.max_connections == 100,
    {
        Configuration {
            server_address: String::from_str("localhost"),
            port: 8080,
            max_connections: 100,
        }
    }

    /// Merges another configuration into this one, taking every value of
    /// the other.
    pub fn merge(&mut self, other: &Configuration)
        ensures
            final(self).server_address@ == other.server_address@,
            final(self).port == other.port,
            final(self).max_connections == other.max_connections,
    {
        self.server_address = other.server_address.clone();
        self.port = other.port;
        self.max_connections = other.max_connections;
    }
}

} // verus!
