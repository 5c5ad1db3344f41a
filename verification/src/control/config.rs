//! The configuration file: where settings live when nobody wants to remember flags.
use vstd::prelude::*;
use vstd::string::*;

use crate::control;
use crate::text;

verus! {

pub const CONFIG_FILE_NAME: &'static str = "config.toml";

/// The port the proxy listens on by default.
pub const DEFAULT_PROXY_PORT: u16 = 8080;

/// Every setting, grouped by who reads it.
#[derive(Clone, Debug, PartialEq)]
pub struct RelayConfig {
    pub daemon: DaemonSection,
    pub proxy: ProxySection,
    pub client: ClientSection,
}

#[derive(Clone, Debug, PartialEq)]
pub struct DaemonSection {
    /// Control API / Web UI port.
    pub api_port: u16,
    /// MCP endpoint port.
    pub mcp_port: u16,
    /// Serve the MCP endpoint from the daemon.
    pub mcp: bool,
    /// Stop the proxy after this many seconds without captured traffic; `0` never stops it.
    pub idle_timeout: u64,
    /// Write every flow update to this file. Empty means nothing is written.
    pub save_stream: String,
}

#[derive(Clone, Debug, PartialEq)]
pub struct ProxySection {
    /// Port the proxy listens on when a command does not name one.
    pub port: u16,
}

#[derive(Clone, Debug, PartialEq)]
pub struct ClientSection {
    /// Whether the MCP bridge may start a daemon when none is running.
    pub autostart_daemon: bool,
}

/// The settings of the daemon when none are given.
pub open spec fn default_daemon(s: DaemonSection) -> bool {
    &&& s.api_port == control::DEFAULT_API_PORT
    &&& s.mcp_port == control::DEFAULT_MCP_PORT
    &&& s.mcp
    &&& s.idle_timeout == 0
    &&& s.save_stream@ == Seq::<char>::empty()
}

impl Default for DaemonSection {
    fn default() -> (r: Self)
        ensures
            default_daemon(r),
            r.api_port == 8082,
            r.mcp_port == 18083,
            r.mcp,
            r.idle_timeout == 0,
            r.save_stream@.len() == 0,
    {
        DaemonSection {
            api_port: control::DEFAULT_API_PORT,
            mcp_port: control::DEFAULT_MCP_PORT,
            mcp: true,
            idle_timeout: 0,
            save_stream: String::new(),
        }
    }
}

impl Default for ProxySection {
    fn default() -> (r: Self)
        ensures
            r.port == DEFAULT_PROXY_PORT,
            r.port == 8080,
    {
        ProxySection { port: DEFAULT_PROXY_PORT }
    }
}

impl Default for ClientSection {
    fn default() -> (r: Self)
        ensures
            r.autostart_daemon,
    {
        ClientSection { autostart_daemon: true }
    }
}

/// The settings when none are given.
pub open spec fn default_config(c: RelayConfig) -> bool {
    default_daemon(c.daemon) && c.proxy.port == DEFAULT_PROXY_PORT && c.client.autostart_daemon
}

impl Default for RelayConfig {
    fn default() -> (r: Self)
        ensures
            default_config(r),
            r.daemon.api_port == 8082,
            r.daemon.mcp_port == 18083,
            r.daemon.mcp,
            r.daemon.idle_timeout == 0,
            r.daemon.save_stream@.len() == 0,
            r.proxy.port == 8080,
            r.client.autostart_daemon,
    {
        RelayConfig {
            daemon: DaemonSection::default(),
            proxy: ProxySection::default(),
            client: ClientSection::default(),
        }
    }
}

impl DaemonSection {
    /// The configured stream file. An empty text is how the file says that there is none.
    pub fn save_stream_path(&self) -> (r: Option<String>)
        ensures
            text::text_opt(r) == (if text::trimmed(self.save_stream@).len() == 0 {
                None
            } else {
                Some(text::trimmed(self.save_stream@))
            }),
    {
        let trimmed = text::trim(self.save_stream.as_str());
        if text::chars_of(trimmed.as_str()).len() == 0 {
            None
        } else {
            Some(trimmed)
        }
    }
}

/// Why the configuration could not be read or written.
#[derive(Clone, Debug)]
pub enum ConfigError {
    Io { path: String, source: String },
    Parse { path: String, source: String },
    Write { path: String, source: String },
}

/// How an error of the configuration reads.
pub open spec fn error_text(e: ConfigError) -> Seq<char> {
    match e {
        ConfigError::Io { path, source } => "cannot read "@ + path@ + ": "@ + source@,
        ConfigError::Parse { path, source } => path@ + " is not valid TOML: "@ + source@,
        ConfigError::Write { path, source } => "cannot write "@ + path@ + ": "@ + source@,
    }
}

impl ConfigError {
    /// How the error reads.
    pub fn message(&self) -> (r: String)
        ensures
            r@ == error_text(*self),
            self matches ConfigError::Io { path, source } ==> r@ == "cannot read "@ + path@ + ": "@ + source@,
            self matches ConfigError::Parse { path, source } ==> r@ == path@ + " is not valid TOML: "@ + source@,
            self matches ConfigError::Write { path, source } ==> r@ == "cannot write "@ + path@ + ": "@ + source@,
    {
        match self {
            ConfigError::Io { path, source } => text::concat4("cannot read ", path.as_str(), ": ", source.as_str()),
            ConfigError::Parse { path, source } => text::concat3(
                path.as_str(),
                " is not valid TOML: ",
                source.as_str(),
            ),
            ConfigError::Write { path, source } => text::concat4(
                "cannot write ",
                path.as_str(),
                ": ",
                source.as_str(),
            ),
        }
    }
}

/// Where a data directory keeps its configuration, on Windows or elsewhere.
pub fn config_path(data_dir: &str, windows: bool) -> (r: String)
    ensures
        r@ == control::path_in(data_dir@, CONFIG_FILE_NAME@, windows),
        r@ == control::path_in(data_dir@, "config.toml"@, windows),
{
    control::join_path(data_dir, CONFIG_FILE_NAME, windows)
}

/// What the configuration file was found to hold.
#[derive(Clone, Debug)]
pub enum ConfigFile {
    Missing,
    /// It could not be read.
    Unreadable(String),
    /// It could not be understood.
    Malformed(String),
    Parsed(RelayConfig),
}

/// The configuration a data directory has: the defaults where there is no file, and an error, never
/// the defaults, where there is one that cannot be understood.
pub fn load(data_dir: &str, file: ConfigFile, windows: bool) -> (r: Result<RelayConfig, ConfigError>)
    ensures
        match file {
            ConfigFile::Missing => r matches Ok(c) && default_config(c),
            ConfigFile::Unreadable(e) => r matches Err(ConfigError::Io { path, source }) && path@ == control::path_in(
                data_dir@,
                CONFIG_FILE_NAME@,
                windows,
            ) && source == e,
            ConfigFile::Malformed(e) => r matches Err(ConfigError::Parse { path, source }) && path@ == control::path_in(
                data_dir@,
                CONFIG_FILE_NAME@,
                windows,
            ) && source == e,
            ConfigFile::Parsed(c) => r == Ok::<RelayConfig, ConfigError>(c),
        },
        file is Missing ==> r is Ok && r->Ok_0.daemon.api_port == 8082 && r->Ok_0.daemon.mcp_port == 18083
            && r->Ok_0.daemon.mcp && r->Ok_0.daemon.idle_timeout == 0 && r->Ok_0.daemon.save_stream@.len() == 0
            && r->Ok_0.proxy.port == 8080 && r->Ok_0.client.autostart_daemon,
{
    match file {
        ConfigFile::Missing => Ok(RelayConfig::default()),
        ConfigFile::Unreadable(source) => Err(ConfigError::Io { path: config_path(data_dir, windows), source }),
        ConfigFile::Malformed(source) => Err(ConfigError::Parse { path: config_path(data_dir, windows), source }),
        ConfigFile::Parsed(c) => Ok(c),
    }
}

/// Whether the default configuration may be written. A file that is there is only overwritten by
/// force.
pub fn may_write_default(data_dir: &str, present: bool, force: bool, windows: bool) -> (r: Result<String, ConfigError>)
    ensures
        r is Ok <==> (!present || force),
        match r {
            Ok(path) => path@ == control::path_in(data_dir@, CONFIG_FILE_NAME@, windows),
            Err(ConfigError::Write { path, source }) => path@ == control::path_in(data_dir@, CONFIG_FILE_NAME@, windows)
                && source@ == "config already exists (pass --force to overwrite)"@,
            Err(_) => false,
        },
{
    let path = config_path(data_dir, windows);
    if present && !force {
        return Err(
            ConfigError::Write { path, source: text::copy("config already exists (pass --force to overwrite)") },
        );
    }
    Ok(path)
}

/// The file that is written so that the settings are discoverable.
pub const DEFAULT_CONFIG_TEMPLATE: &'static str = "# RelayCore configuration.
#
# Every key is optional; an unset key uses the built-in default. Precedence is
# command-line flag > environment variable > this file > built-in default.

[daemon]
# Control API (and Web UI) port. Falls back to an ephemeral port when taken.
api_port = 8082
# MCP endpoint port served by the daemon.
mcp_port = 18083
# Serve the MCP endpoint from the daemon.
mcp = true
# Stop the proxy after this many seconds without captured traffic. 0 = never.
idle_timeout = 0
# Write every flow update to this file as JSONL (empty = do not write).
save_stream = \"\"

[proxy]
# Port the proxy listens on when a command does not name one.
port = 8080

[client]
# Whether the MCP bridge may start a daemon when none is running.
autostart_daemon = true
";

} // verus!
