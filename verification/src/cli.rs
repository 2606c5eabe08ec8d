//! The command line, as plain data: what each command is given.

use vstd::prelude::*;
use crate::config::ProxyType;

verus! {

/// The configuration file read when none is given.
pub const DEFAULT_CONFIG_PATH: &'static str = "servers.toml";

/// The whole command line.
#[derive(Debug)]
pub struct Cli {
    /// The configuration file.
    pub config: String,
    pub command: Commands,
}

/// The commands of the tool.
#[derive(Debug)]
pub enum Commands {
    Init(ServerArgs),
    Update(ServerArgs),
    Uninstall(UninstallArgs),
    Check(ServerArgs),
    Version(VersionArgs),
    App { command: AppCommands },
    Deploy(DeployArgs),
    Status(ServerArgs),
}

/// The subcommands of `app`.
#[derive(Debug)]
pub enum AppCommands {
    Add(AppAddArgs),
    List(ServerArgs),
    Remove(AppRemoveArgs),
}

/// Which server to act on, and whether to only show what would happen.
#[derive(Debug)]
pub struct ServerArgs {
    pub server: Option<String>,
    pub dry_run: bool,
}

/// The arguments of `uninstall`.
#[derive(Debug)]
pub struct UninstallArgs {
    pub server: ServerArgs,
    /// Skip the confirmation.
    pub yes: bool,
}

/// The arguments of `deploy`.
#[derive(Debug)]
pub struct DeployArgs {
    pub target: String,
    pub server: ServerArgs,
}

/// The arguments of `app add`; what is missing is asked for.
#[derive(Debug)]
pub struct AppAddArgs {
    pub server: ServerArgs,
    pub domain: Option<String>,
    pub upstream_port: Option<u16>,
    pub proxy: Option<ProxyValue>,
}

/// The arguments of `app remove`; a missing domain is asked for.
#[derive(Debug)]
pub struct AppRemoveArgs {
    pub server: ServerArgs,
    pub domain: Option<String>,
}

/// The arguments of `version`.
#[derive(Debug)]
pub struct VersionArgs {
    /// Also ask for the latest release.
    pub check_latest: bool,
}

/// A proxy as named on the command line.
#[derive(Debug, Clone, Copy, PartialEq, Eq, Structural)]
pub enum ProxyValue {
    Caddy,
    Nginx,
}

/// The proxy a command-line value names.
pub open spec fn proxy_of_value(v: ProxyValue) -> ProxyType {
    match v {
        ProxyValue::Caddy => ProxyType::Caddy,
        ProxyValue::Nginx => ProxyType::Nginx,
    }
}

impl From<ProxyValue> for ProxyType {
    fn from(value: ProxyValue) -> (r: ProxyType) {
        match value {
            ProxyValue::Caddy => ProxyType::Caddy,
            ProxyValue::Nginx => ProxyType::Nginx,
        }
    }
}

impl vstd::std_specs::convert::FromSpecImpl<ProxyValue> for ProxyType {
    open spec fn obeys_from_spec() -> bool {
        true
    }

    open spec fn from_spec(v: ProxyValue) -> ProxyType {
        proxy_of_value(v)
    }
}

} // verus!
