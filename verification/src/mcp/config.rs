//! The server list handed to the MCP bridge.
use vstd::prelude::*;

use crate::config::defaults::{
    default_servers, home_or_tmp, mcp_servers_for, normalize_mcp_for, normalized_servers,
};
use crate::config::schema::{servers_wf, McpServerConfig};

verus! {

/// The bridge's server list, given the servers stored in the settings file:
/// the stored list repaired for `home` when there is one, else the built-in
/// servers for `home`.
pub open spec fn bridge_servers(
    stored: Seq<(String, McpServerConfig)>,
    r: Seq<(String, McpServerConfig)>,
    home: Seq<char>,
) -> bool {
    if stored.len() > 0 {
        normalized_servers(stored, r, home)
    } else {
        default_servers(r, home)
    }
}

/// The bridge's server list for the home directory `home`.
pub fn load_config_for(stored: Vec<(String, McpServerConfig)>, home: &str) -> (r: Result<
    Vec<(String, McpServerConfig)>,
    String,
>)
    ensures
        r is Ok,
        r matches Ok(v) && bridge_servers(stored@, v@, home@),
        r matches Ok(v) && (servers_wf(stored@) ==> servers_wf(v@)),
{
    if stored.len() > 0 {
        return Ok(normalize_mcp_for(stored, home));
    }
    Ok(mcp_servers_for(home))
}

/// The bridge's server list for the current user, from the servers stored
/// in the settings file.
pub fn load_config(stored: Vec<(String, McpServerConfig)>) -> (r: Result<Vec<(String, McpServerConfig)>, String>)
    ensures
        r is Ok,
        r matches Ok(v) && exists|home: Seq<char>| home.len() > 0 && #[trigger] bridge_servers(stored@, v@, home),
        r matches Ok(v) && (servers_wf(stored@) ==> servers_wf(v@)),
{
    let home = home_or_tmp();
    load_config_for(stored, home.as_str())
}

} // verus!
