//! `status`: not implemented yet; it says so.

use vstd::prelude::*;
use vstd::string::*;

verus! {

broadcast use vstd::string::group_string_axioms;

/// The name shown when no server was given.
pub open spec fn shown_server(server: Option<&str>) -> Seq<char> {
    match server {
        Some(s) => s@,
        None => "<select during init>"@,
    }
}

/// The server name shown in a placeholder message.
pub fn shown_server_name(server: Option<&str>) -> (r: String)
    ensures
        r@ == shown_server(server),
{
    match server {
        Some(s) => s.to_string(),
        None => "<select during init>".to_string(),
    }
}

/// The message `status` prints.
pub fn status_message(server: Option<&str>) -> (r: String)
    ensures
        r@ == "`status` for server '"@ + shown_server(server) + "' is scaffolded next."@,
{
    let mut r = "`status` for server '".to_string();
    r.append(shown_server_name(server).as_str());
    r.append("' is scaffolded next.");
    r
}

} // verus!
