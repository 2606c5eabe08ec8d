//! The decisions of each command; the commands themselves run them and do
//! the remote and local I/O.

pub mod app;
pub mod check;
pub mod deploy;
pub mod init;
pub mod status;
pub mod uninstall;
pub mod update;
pub mod version;

use vstd::prelude::*;
use crate::config::Config;

verus! {

broadcast use vstd::string::group_string_axioms;

/// The server a command acts on: the one named, else the first one listed.
pub open spec fn target_server_spec(c: Seq<crate::config::ServerView>, requested: Option<Seq<char>>) -> Seq<char> {
    match requested {
        Some(n) => n,
        None => c[0].name,
    }
}

/// The name of the server `update`, `uninstall` and `check` act on: the one
/// requested, else the first server of the configuration.
pub fn target_server_name(config: &Config, requested: Option<&str>) -> (r: String)
    requires
        requested is None ==> config@.len() > 0,
    ensures
        r@ == target_server_spec(config@, crate::ssh::opt_view(requested)),
{
    match requested {
        Some(n) => n.to_string(),
        None => config.servers[0].name.clone(),
    }
}

} // verus!
