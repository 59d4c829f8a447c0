//! Command-line arguments of the node.
use vstd::prelude::*;
use vstd::string::*;
use crate::paths::{expand_tilde, tilde_expanded};

verus! {

/// The node's command-line arguments.
#[derive(Debug, PartialEq, Eq)]
pub struct Args {
    /// Path of the configuration file.
    pub config: String,
    /// Log level.
    pub log_level: String,
    /// Overrides the configured node id.
    pub node_id: Option<String>,
    /// Overrides the listen address.
    pub listen_address: Option<String>,
    /// Path of the socket for local clients.
    pub ipc_socket: String,
    /// Whether local clients are refused.
    pub no_ipc: bool,
    /// Directory of the object store.
    pub store_dir: String,
}

fn home_view(home: &Option<String>) -> (r: Option<&str>)
    ensures
        match home {
            Some(h) => r is Some && r->Some_0@ == h@,
            None => r is None,
        },
{
    match home {
        Some(h) => Some(h.as_str()),
        None => None,
    }
}

/// A home directory as text.
pub open spec fn home_text(home: Option<String>) -> Option<Seq<char>> {
    match home {
        Some(h) => Some(h@),
        None => None,
    }
}

impl Args {
    /// The directory of the object store, given the home directory.
    pub fn store_path(&self, home: &Option<String>) -> (r: String)
        ensures
            r@ == tilde_expanded(self.store_dir@, home_text(*home)),
    {
        expand_tilde(self.store_dir.as_str(), home_view(home))
    }

    /// The socket for local clients, unless they are refused.
    pub fn socket_path(&self, home: &Option<String>) -> (r: Option<String>)
        ensures
            match r {
                Some(p) => !self.no_ipc && p@ == tilde_expanded(self.ipc_socket@, home_text(*home)),
                None => self.no_ipc,
            },
    {
        if self.no_ipc {
            None
        } else {
            Some(expand_tilde(self.ipc_socket.as_str(), home_view(home)))
        }
    }
}

} // verus!
