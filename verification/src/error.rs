//! The errors of the library, each with the message the tool prints for it.

use vstd::prelude::*;
use vstd::string::*;
use crate::config::{ProxyType, proxy_label};

verus! {

broadcast use vstd::string::group_string_axioms;

/// Everything that can go wrong in the library's decisions.
#[derive(Debug, PartialEq, Eq)]
pub enum Error {
    /// No server in the configuration has this name.
    ServerNotFound { name: String },
    /// The configuration lists no server at all.
    NoServers,
    /// The server already maps this domain.
    AppExists { domain: String, server: String },
    /// The server already runs another proxy than the one asked for.
    MixedProxy { server: String, existing: ProxyType },
    /// Port 0 was given as the app's port.
    InvalidUpstreamPort,
    /// The server maps no app for this domain.
    DomainNotFound { domain: String, server: String },
    /// The server has no app mapping that could be removed.
    NoAppsToRemove { server: String },
    /// The server entry names no SSH key.
    EmptySshKeyPath { example: String },
    /// The SSH key file of the server entry does not exist.
    SshKeyNotFound { path: String, example: String },
    /// A remote command exited unsuccessfully.
    RemoteCommandFailed { command: String, stderr: String },
    /// A remote command printed something that is not UTF-8.
    RemoteOutputNotUtf8,
    /// `/etc/os-release` named no distribution.
    EmptyDistro,
    /// The remote distribution is not one the setup supports.
    UnsupportedDistro { distro: String },
    /// `init` was run without prompts and without a server name.
    InitNeedsServer,
}

/// The mathematical value of an [`Error`].
pub enum ErrorView {
    ServerNotFound { name: Seq<char> },
    NoServers,
    AppExists { domain: Seq<char>, server: Seq<char> },
    MixedProxy { server: Seq<char>, existing: ProxyType },
    InvalidUpstreamPort,
    DomainNotFound { domain: Seq<char>, server: Seq<char> },
    NoAppsToRemove { server: Seq<char> },
    EmptySshKeyPath { example: Seq<char> },
    SshKeyNotFound { path: Seq<char>, example: Seq<char> },
    RemoteCommandFailed { command: Seq<char>, stderr: Seq<char> },
    RemoteOutputNotUtf8,
    EmptyDistro,
    UnsupportedDistro { distro: Seq<char> },
    InitNeedsServer,
}

impl View for Error {
    type V = ErrorView;

    open spec fn view(&self) -> ErrorView {
        match self {
            Error::ServerNotFound { name } => ErrorView::ServerNotFound { name: name@ },
            Error::NoServers => ErrorView::NoServers,
            Error::AppExists { domain, server } => ErrorView::AppExists {
                domain: domain@,
                server: server@,
            },
            Error::MixedProxy { server, existing } => ErrorView::MixedProxy {
                server: server@,
                existing: *existing,
            },
            Error::InvalidUpstreamPort => ErrorView::InvalidUpstreamPort,
            Error::DomainNotFound { domain, server } => ErrorView::DomainNotFound {
                domain: domain@,
                server: server@,
            },
            Error::NoAppsToRemove { server } => ErrorView::NoAppsToRemove { server: server@ },
            Error::EmptySshKeyPath { example } => ErrorView::EmptySshKeyPath { example: example@ },
            Error::SshKeyNotFound { path, example } => ErrorView::SshKeyNotFound {
                path: path@,
                example: example@,
            },
            Error::RemoteCommandFailed { command, stderr } => ErrorView::RemoteCommandFailed {
                command: command@,
                stderr: stderr@,
            },
            Error::RemoteOutputNotUtf8 => ErrorView::RemoteOutputNotUtf8,
            Error::EmptyDistro => ErrorView::EmptyDistro,
            Error::UnsupportedDistro { distro } => ErrorView::UnsupportedDistro { distro: distro@ },
            Error::InitNeedsServer => ErrorView::InitNeedsServer,
        }
    }
}

/// The message printed for an error.
pub open spec fn message_spec(e: ErrorView) -> Seq<char> {
    match e {
        ErrorView::ServerNotFound { name } => "server '"@ + name + "' was not found in config"@,
        ErrorView::NoServers => "config does not contain any [[servers]] entries"@,
        ErrorView::AppExists { domain, server } => "an app for domain '"@ + domain
            + "' already exists on server '"@ + server + "'"@,
        ErrorView::MixedProxy { server, existing } => "server '"@ + server + "' already uses "@
            + proxy_label(existing)
            + ". mixing proxy types on one server is not supported yet"@,
        ErrorView::InvalidUpstreamPort =>
            "app port to proxy to must be between 1 and 65535.\nUse the local port your app already listens on, for example `8000`."@,
        ErrorView::DomainNotFound { domain, server } => "domain '"@ + domain
            + "' was not found on server '"@ + server + "'"@,
        ErrorView::NoAppsToRemove { server } => "server '"@ + server
            + "' has no app mappings to remove"@,
        ErrorView::EmptySshKeyPath { example } =>
            "SSH key path is empty.\nSet `ssh_key` to the private key on the machine running ez-vps, for example: "@
            + example,
        ErrorView::SshKeyNotFound { path, example } => "SSH key file was not found: "@ + path
            + "\nMake sure `ssh_key` points to a local private key on the machine running ez-vps, for example: "@
            + example,
        ErrorView::RemoteCommandFailed { command, stderr } => "remote command failed: `"@ + command
            + "`\n"@ + stderr,
        ErrorView::RemoteOutputNotUtf8 => "remote command output was not valid UTF-8"@,
        ErrorView::EmptyDistro => "remote distro detection returned an empty result"@,
        ErrorView::UnsupportedDistro { distro } => "unsupported distro '"@ + distro
            + "'. Ubuntu 22.04+ is the current supported target"@,
        ErrorView::InitNeedsServer => "`init` requires --server when prompts are disabled"@,
    }
}

impl Error {
    /// The message the tool prints for this error.
    pub fn message(&self) -> (r: String)
        ensures
            r@ == message_spec(self@),
    {
        match self {
            Error::ServerNotFound { name } => {
                let mut r = "server '".to_string();
                r.append(name.as_str());
                r.append("' was not found in config");
                r
            },
            Error::NoServers => "config does not contain any [[servers]] entries".to_string(),
            Error::AppExists { domain, server } => {
                let mut r = "an app for domain '".to_string();
                r.append(domain.as_str());
                r.append("' already exists on server '");
                r.append(server.as_str());
                r.append("'");
                r
            },
            Error::MixedProxy { server, existing } => {
                let mut r = "server '".to_string();
                r.append(server.as_str());
                r.append("' already uses ");
                r.append(existing.label());
                r.append(". mixing proxy types on one server is not supported yet");
                r
            },
            Error::InvalidUpstreamPort => {
                "app port to proxy to must be between 1 and 65535.\nUse the local port your app already listens on, for example `8000`.".to_string()
            },
            Error::DomainNotFound { domain, server } => {
                let mut r = "domain '".to_string();
                r.append(domain.as_str());
                r.append("' was not found on server '");
                r.append(server.as_str());
                r.append("'");
                r
            },
            Error::NoAppsToRemove { server } => {
                let mut r = "server '".to_string();
                r.append(server.as_str());
                r.append("' has no app mappings to remove");
                r
            },
            Error::EmptySshKeyPath { example } => {
                let mut r =
                    "SSH key path is empty.\nSet `ssh_key` to the private key on the machine running ez-vps, for example: ".to_string();
                r.append(example.as_str());
                r
            },
            Error::SshKeyNotFound { path, example } => {
                let mut r = "SSH key file was not found: ".to_string();
                r.append(path.as_str());
                r.append(
                    "\nMake sure `ssh_key` points to a local private key on the machine running ez-vps, for example: ",
                );
                r.append(example.as_str());
                r
            },
            Error::RemoteCommandFailed { command, stderr } => {
                let mut r = "remote command failed: `".to_string();
                r.append(command.as_str());
                r.append("`\n");
                r.append(stderr.as_str());
                r
            },
            Error::RemoteOutputNotUtf8 => "remote command output was not valid UTF-8".to_string(),
            Error::EmptyDistro => "remote distro detection returned an empty result".to_string(),
            Error::UnsupportedDistro { distro } => {
                let mut r = "unsupported distro '".to_string();
                r.append(distro.as_str());
                r.append("'. Ubuntu 22.04+ is the current supported target");
                r
            },
            Error::InitNeedsServer => "`init` requires --server when prompts are disabled".to_string(),
        }
    }
}

} // verus!
