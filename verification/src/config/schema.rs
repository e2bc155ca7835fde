//! The shape of the settings file and of the values the web app exchanges.
use vstd::prelude::*;

verus! {

/// The whole settings file.  `mcp_servers` maps each server's name to its
/// configuration; every name occurs once (see `servers_wf`).
#[derive(Debug, Clone, PartialEq)]
pub struct Settings {
    pub general: GeneralSettings,
    pub performance: PerformanceSettings,
    pub mcp_servers: Vec<(String, McpServerConfig)>,
}

/// General preferences.
#[derive(Debug, Clone, PartialEq)]
pub struct GeneralSettings {
    pub check_updates: bool,
    pub theme: String,
}

/// Rendering preferences.
#[derive(Debug, Clone, PartialEq)]
pub struct PerformanceSettings {
    pub force_software_rendering: bool,
}

/// The value `check_updates` takes when a stored `general` section omits it.
pub fn default_true() -> (b: bool)
    ensures
        b,
{
    true
}

/// How to start (or reach) one MCP server.
#[derive(Debug, Clone, PartialEq)]
pub struct McpServerConfig {
    pub command: String,
    pub args: Vec<String>,
    /// Extra environment variables, as name and value.
    pub env: Option<Vec<(String, String)>>,
    pub cwd: Option<String>,
    pub transport_type: Option<String>,
    pub url: Option<String>,
    pub timeout: Option<u64>,
    pub source: Option<String>,
    pub identifier: Option<String>,
    pub from: Option<String>,
    pub from_id: Option<String>,
    pub disabled: bool,
}

/// No server name occurs twice.
pub open spec fn servers_wf(v: Seq<(String, McpServerConfig)>) -> bool {
    forall|i: int, j: int|
        0 <= i < v.len() && 0 <= j < v.len() && i != j ==> #[trigger] v[i].0@ != #[trigger] v[j].0@
}

impl Default for GeneralSettings {
    fn default() -> (r: Self)
        ensures
            !r.check_updates,
            r.theme@ == Seq::<char>::empty(),
    {
        GeneralSettings { check_updates: false, theme: String::new() }
    }
}

impl Default for PerformanceSettings {
    fn default() -> (r: Self)
        ensures
            !r.force_software_rendering,
    {
        PerformanceSettings { force_software_rendering: false }
    }
}

impl Default for Settings {
    fn default() -> (r: Self)
        ensures
            !r.general.check_updates,
            r.general.theme@ == Seq::<char>::empty(),
            !r.performance.force_software_rendering,
            r.mcp_servers@.len() == 0,
    {
        Settings {
            general: GeneralSettings { check_updates: false, theme: String::new() },
            performance: PerformanceSettings { force_software_rendering: false },
            mcp_servers: Vec::new(),
        }
    }
}

impl Default for McpServerConfig {
    fn default() -> (r: Self)
        ensures
            r.command@ == Seq::<char>::empty(),
            r.args@.len() == 0,
            r.env is None,
            r.cwd is None,
            r.transport_type is None,
            r.url is None,
            r.timeout is None,
            r.source is None,
            r.identifier is None,
            r.from is None,
            r.from_id is None,
            !r.disabled,
    {
        McpServerConfig {
            command: String::new(),
            args: Vec::new(),
            env: None,
            cwd: None,
            transport_type: None,
            url: None,
            timeout: None,
            source: None,
            identifier: None,
            from: None,
            from_id: None,
            disabled: false,
        }
    }
}

/// The parameters of a tool listing request.
#[derive(Debug, Clone, PartialEq)]
pub struct ToolListParams {
    pub server_name: String,
}

/// A native message dialog.
#[derive(Debug, Clone, PartialEq)]
pub struct DialogOptions {
    pub title: String,
    pub message: String,
    pub buttons: Option<Vec<String>>,
    pub default_id: Option<usize>,
}

/// One message of an exported chat.
#[derive(Debug, Clone, PartialEq)]
pub struct ChatMessage {
    pub role: String,
    pub content: String,
    pub timestamp: Option<String>,
}

/// An exported chat.
#[derive(Debug, Clone, PartialEq)]
pub struct ChatExport {
    pub title: String,
    pub messages: Vec<ChatMessage>,
    pub exported_at: String,
}

/// What the update check found.
#[derive(Debug, Clone, PartialEq)]
pub struct UpdateInfo {
    pub current_version: String,
    pub available: bool,
    pub latest_version: String,
    pub release_notes: String,
    pub download_url: Option<String>,
}

} // verus!
