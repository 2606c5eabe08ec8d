//! `deploy`: not implemented yet; it says so.

use vstd::prelude::*;
use vstd::string::*;
use crate::commands::status::{shown_server, shown_server_name};

verus! {

broadcast use vstd::string::group_string_axioms;

/// The message `deploy` prints.
pub fn deploy_message(target: &str, server: Option<&str>) -> (r: String)
    ensures
        r@ == "`deploy "@ + target@ + "` for server '"@ + shown_server(server)
            + "' is scaffolded next."@,
{
    let mut r = "`deploy ".to_string();
    r.append(target);
    r.append("` for server '");
    r.append(shown_server_name(server).as_str());
    r.append("' is scaffolded next.");
    r
}

} // verus!
