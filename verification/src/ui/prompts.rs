//! The choices `init` makes: which server, which proxy, which app mapping,
//! whether to install Docker; and what each prompt offers by default.

use vstd::prelude::*;
use vstd::string::*;
use crate::config::{App, Config, ProxyType, Server, ServerView, lookup_server};
use crate::error::{Error, ErrorView};
use crate::paths::{join_path, path_join, plain_name, ends_with};
use crate::ssh::opt_view;
use crate::text::{string_views, trim_ws, is_ws, lemma_trim_ws_nonempty};

verus! {

broadcast use vstd::string::group_string_axioms;

/// The reverse proxy chosen during `init`, if any.
#[derive(Debug, Clone, Copy, PartialEq, Eq, Structural)]
pub enum ProxyKind {
    Caddy,
    Nginx,
    NoProxy,
}

/// The display name of a proxy choice.
pub open spec fn kind_label(k: ProxyKind) -> Seq<char> {
    match k {
        ProxyKind::Caddy => "Caddy"@,
        ProxyKind::Nginx => "Nginx"@,
        ProxyKind::NoProxy => "None"@,
    }
}

/// The proxy a choice installs.
pub open spec fn kind_proxy(k: ProxyKind) -> Option<ProxyType> {
    match k {
        ProxyKind::Caddy => Some(ProxyType::Caddy),
        ProxyKind::Nginx => Some(ProxyType::Nginx),
        ProxyKind::NoProxy => None,
    }
}

impl ProxyKind {
    /// The display name of the choice.
    pub fn label(self) -> (r: &'static str)
        ensures
            r@ == kind_label(self),
    {
        match self {
            ProxyKind::Caddy => "Caddy",
            ProxyKind::Nginx => "Nginx",
            ProxyKind::NoProxy => "None",
        }
    }

    /// The proxy this choice installs, if any.
    pub fn proxy_type(self) -> (r: Option<ProxyType>)
        ensures
            r == kind_proxy(self),
    {
        match self {
            ProxyKind::Caddy => Some(ProxyType::Caddy),
            ProxyKind::Nginx => Some(ProxyType::Nginx),
            ProxyKind::NoProxy => None,
        }
    }
}

/// The app mapping that `init` writes into the proxy configuration.
#[derive(Debug)]
pub struct ProxyConfig {
    pub domain: String,
    pub upstream_port: u16,
}

/// The mathematical value of a [`ProxyConfig`].
pub struct ProxyConfigView {
    pub domain: Seq<char>,
    pub upstream_port: u16,
}

impl View for ProxyConfig {
    type V = ProxyConfigView;

    open spec fn view(&self) -> ProxyConfigView {
        ProxyConfigView { domain: self.domain@, upstream_port: self.upstream_port }
    }
}

impl Clone for ProxyConfig {
    fn clone(&self) -> (r: Self)
        ensures
            r@ == self@,
    {
        ProxyConfig { domain: self.domain.clone(), upstream_port: self.upstream_port }
    }
}

/// The view of an optional mapping.
pub open spec fn opt_config(o: Option<ProxyConfig>) -> Option<ProxyConfigView> {
    match o {
        Some(c) => Some(c@),
        None => None,
    }
}

/// Everything `init` needs to set a server up.
#[derive(Debug)]
pub struct InitOptions {
    pub server: Server,
    pub proxy: ProxyKind,
    pub proxy_config: Option<ProxyConfig>,
    pub install_docker: bool,
}

/// The mathematical value of [`InitOptions`].
pub struct InitOptionsView {
    pub server: ServerView,
    pub proxy: ProxyKind,
    pub proxy_config: Option<ProxyConfigView>,
    pub install_docker: bool,
}

impl View for InitOptions {
    type V = InitOptionsView;

    open spec fn view(&self) -> InitOptionsView {
        InitOptionsView {
            server: self.server@,
            proxy: self.proxy,
            proxy_config: opt_config(self.proxy_config),
            install_docker: self.install_docker,
        }
    }
}

// ---------------------------------------------------------------------------
// Defaults offered by the prompts
// ---------------------------------------------------------------------------

/// The first app of a server, whose settings the prompts reuse.
pub fn first_existing_app(server: &Server) -> (r: Option<&App>)
    ensures
        match r {
            Some(a) => server@.apps.len() > 0 && a@ == server@.apps[0],
            None => server@.apps.len() == 0,
        },
{
    if server.apps.len() > 0 {
        Some(&server.apps[0])
    } else {
        None
    }
}

/// The domain offered for the proxy: the first app's, else `example.com`.
pub open spec fn default_domain_spec(s: ServerView) -> Seq<char> {
    if s.apps.len() > 0 {
        s.apps[0].domain
    } else {
        "example.com"@
    }
}

/// The app port offered for the proxy: the first app's, else 8000.
pub open spec fn default_port_spec(s: ServerView) -> u16 {
    if s.apps.len() > 0 {
        s.apps[0].upstream_port
    } else {
        8000
    }
}

/// The domain offered for the proxy mapping.
pub fn default_domain(server: &Server) -> (r: String)
    ensures
        r@ == default_domain_spec(server@),
{
    match first_existing_app(server) {
        Some(app) => app.domain.clone(),
        None => "example.com".to_string(),
    }
}

/// The app port offered for the proxy mapping.
pub fn default_upstream_port(server: &Server) -> (r: u16)
    ensures
        r == default_port_spec(server@),
{
    match first_existing_app(server) {
        Some(app) => app.upstream_port,
        None => 8000,
    }
}

/// The user name offered for a new server: `$USER`, else `$USERNAME`, else `root`.
pub fn detect_current_user(user: Option<&str>, username: Option<&str>) -> (r: String)
    ensures
        r@ == match (user, username) {
            (Some(u), _) => u@,
            (None, Some(u)) => u@,
            (None, None) => "root"@,
        },
{
    match user {
        Some(u) => u.to_string(),
        None => match username {
            Some(u) => u.to_string(),
            None => "root".to_string(),
        },
    }
}

/// The private keys looked for under a home directory, in order of preference.
pub open spec fn key_candidates_spec(home: Seq<char>) -> Seq<Seq<char>> {
    seq![
        path_join(path_join(home, ".ssh"@), "id_ed25519"@),
        path_join(path_join(home, ".ssh"@), "id_rsa"@),
    ]
}

/// The private keys looked for under `home`: `.ssh/id_ed25519`, then `.ssh/id_rsa`.
pub fn ssh_key_candidates(home: &str) -> (r: Vec<String>)
    ensures
        string_views(r@) == key_candidates_spec(home@),
        ends_with(key_candidates_spec(home@)[0], "id_ed25519"@),
        ends_with(key_candidates_spec(home@)[1], "id_rsa"@),
{
    proof {
        reveal_strlit(".");
        reveal_strlit("..");
        reveal_strlit("id_ed25519");
        reveal_strlit("id_rsa");
        assert("id_rsa"@.len() != "."@.len() && "id_rsa"@.len() != ".."@.len());
        assert("id_ed25519"@.len() != "."@.len() && "id_ed25519"@.len() != ".."@.len());
        assert(plain_name("id_ed25519"@));
        assert(plain_name("id_rsa"@));
    }
    let dir = join_path(home, ".ssh");
    let mut r: Vec<String> = Vec::new();
    r.push(join_path(dir.as_str(), "id_ed25519"));
    r.push(join_path(dir.as_str(), "id_rsa"));
    assert(string_views(r@) =~= key_candidates_spec(home@));
    r
}

/// The key path offered for a new server: the first candidate under the home
/// directory that exists (`exists[i]` tells for candidate `i`), else the
/// first candidate, else `~/.ssh/id_ed25519` when no home directory is known.
pub open spec fn default_key_spec(home: Option<Seq<char>>, exists: Seq<bool>) -> Seq<char> {
    match home {
        None => "~/.ssh/id_ed25519"@,
        Some(h) => if exists.len() > 1 && !exists[0] && exists[1] {
            key_candidates_spec(h)[1]
        } else {
            key_candidates_spec(h)[0]
        },
    }
}

/// The key path offered for a new server.
pub fn infer_default_ssh_key_path(home: Option<&str>, exists: &Vec<bool>) -> (r: String)
    ensures
        r@ == default_key_spec(opt_view(home), exists@),
        trim_ws(r@).len() > 0,
{
    match home {
        None => {
            let r = "~/.ssh/id_ed25519".to_string();
            proof {
                reveal_strlit("~/.ssh/id_ed25519");
                assert(r@.last() == '9');
                lemma_trim_ws_nonempty(r@);
            }
            r
        },
        Some(h) => {
            let candidates = ssh_key_candidates(h);
            proof {
                reveal_strlit("id_ed25519");
                reveal_strlit("id_rsa");
                let c0 = key_candidates_spec(h@)[0];
                let c1 = key_candidates_spec(h@)[1];
                assert(c0.last() == c0.subrange(c0.len() - 10, c0.len() as int)[9]);
                assert(c1.last() == c1.subrange(c1.len() - 6, c1.len() as int)[5]);
                lemma_trim_ws_nonempty(c0);
                lemma_trim_ws_nonempty(c1);
            }
            assert(string_views(candidates@).len() == 2);
            assert(candidates@.len() == 2);
            let mut pick: usize = 0;
            if exists.len() > 1 && !exists[0] && exists[1] {
                pick = 1;
            }
            assert(string_views(candidates@)[pick as int] == candidates@[pick as int]@);
            candidates[pick].clone()
        },
    }
}

// ---------------------------------------------------------------------------
// Choosing the server
// ---------------------------------------------------------------------------

/// How `init` gets its server.
#[derive(Debug)]
pub enum ServerChoice {
    /// This server, with no prompt.
    Selected(Server),
    /// Ask for a new server's details.
    EnterNew,
    /// Ask the user to pick one of these entries (in the order of the config).
    Pick(Vec<String>),
}

/// The menu entry of a server: `name (host)`.
pub open spec fn menu_item_spec(s: ServerView) -> Seq<char> {
    s.name + " ("@ + s.host + ")"@
}

/// The menu entries of all servers, in order.
pub open spec fn menu_items_spec(s: Seq<ServerView>) -> Seq<Seq<char>> {
    s.map_values(|v: ServerView| menu_item_spec(v))
}

/// The entries of the server menu: `name (host)` for each server.
pub fn server_menu_items(config: &Config) -> (r: Vec<String>)
    ensures
        string_views(r@) == menu_items_spec(config@),
{
    let mut r: Vec<String> = Vec::new();
    let mut i: usize = 0;
    while i < config.servers.len()
        invariant
            i <= config.servers.len(),
            string_views(r@) == menu_items_spec(config@).take(i as int),
        decreases config.servers.len() - i,
    {
        let s = &config.servers[i];
        let mut item = s.name.clone();
        item.append(" (");
        item.append(s.host.as_str());
        item.append(")");
        assert(string_views(r@.push(item)) =~= string_views(r@).push(item@));
        r.push(item);
        assert(menu_items_spec(config@).take(i + 1) =~= menu_items_spec(config@).take(i as int).push(
            menu_item_spec(config@[i as int]),
        ));
        i += 1;
    }
    assert(menu_items_spec(config@).take(config@.len() as int) =~= menu_items_spec(config@));
    r
}

/// Decides where `init` takes its server from: the named one, an error when
/// prompts are off and no name was given, a new entry when the config is
/// empty, its only server, or a pick from the menu.
pub fn select_server(config: &Config, requested_server: Option<&str>, is_interactive: bool) -> (r:
    Result<ServerChoice, Error>)
    ensures
        match requested_server {
            Some(name) => match lookup_server(config@, name@) {
                Some(s) => r matches Ok(ServerChoice::Selected(t)) && t@ == s,
                None => r matches Err(e) && e@ == (ErrorView::ServerNotFound { name: name@ }),
            },
            None => if !is_interactive {
                r matches Err(e) && e@ == ErrorView::InitNeedsServer
            } else if config@.len() == 0 {
                r matches Ok(ServerChoice::EnterNew)
            } else if config@.len() == 1 {
                r matches Ok(ServerChoice::Selected(t)) && t@ == config@[0]
            } else {
                r matches Ok(ServerChoice::Pick(items)) && string_views(items@) == menu_items_spec(
                    config@,
                )
            },
        },
{
    if let Some(name) = requested_server {
        let found = config.find_server(name)?;
        return Ok(ServerChoice::Selected(found.clone()));
    }
    if !is_interactive {
        return Err(Error::InitNeedsServer);
    }
    if config.servers.len() == 0 {
        return Ok(ServerChoice::EnterNew);
    }
    if config.servers.len() == 1 {
        return Ok(ServerChoice::Selected(config.servers[0].clone()));
    }
    Ok(ServerChoice::Pick(server_menu_items(config)))
}

// ---------------------------------------------------------------------------
// Choosing the proxy, the mapping and Docker
// ---------------------------------------------------------------------------

/// The proxy for each entry of the proxy menu (Caddy, Nginx, None).
pub open spec fn kind_at_spec(index: usize) -> ProxyKind {
    if index == 0 {
        ProxyKind::Caddy
    } else if index == 1 {
        ProxyKind::Nginx
    } else {
        ProxyKind::NoProxy
    }
}

/// The proxy picked at `index` of the proxy menu.
pub fn proxy_kind_from_index(index: usize) -> (r: ProxyKind)
    ensures
        r == kind_at_spec(index),
{
    match index {
        0 => ProxyKind::Caddy,
        1 => ProxyKind::Nginx,
        _ => ProxyKind::NoProxy,
    }
}

/// The proxy `init` uses without asking: Caddy when prompts are off; `None`
/// means that the user is asked.
pub fn select_proxy(is_interactive: bool) -> (r: Option<ProxyKind>)
    ensures
        r == if is_interactive { None } else { Some(ProxyKind::Caddy) },
{
    if !is_interactive {
        return Some(ProxyKind::Caddy);
    }
    None
}

/// Whether `init` installs Docker without asking (it does when prompts are
/// off); `None` means that the user is asked.
pub fn select_docker(is_interactive: bool) -> (r: Option<bool>)
    ensures
        r == if is_interactive { None } else { Some(true) },
{
    if !is_interactive {
        return Some(true);
    }
    None
}

/// How `init` gets the app mapping for the proxy.
#[derive(Debug)]
pub enum ProxyConfigChoice {
    /// No proxy, so no mapping.
    Skip,
    /// This mapping, with no prompt.
    Use(ProxyConfig),
    /// Ask, offering this mapping as the default.
    Ask(ProxyConfig),
}

/// The mapping that the prompts offer for `server`.
pub open spec fn default_mapping_spec(s: ServerView) -> ProxyConfigView {
    ProxyConfigView { domain: default_domain_spec(s), upstream_port: default_port_spec(s) }
}

/// Decides how `init` gets the proxy mapping: none without a proxy, the
/// defaults when prompts are off, else a prompt that offers the defaults.
pub fn collect_proxy_config(proxy: ProxyKind, server: &Server, is_interactive: bool) -> (r:
    ProxyConfigChoice)
    ensures
        proxy == ProxyKind::NoProxy ==> r is Skip,
        proxy != ProxyKind::NoProxy && !is_interactive ==> (r matches ProxyConfigChoice::Use(c) && c@
            == default_mapping_spec(server@)),
        proxy != ProxyKind::NoProxy && is_interactive ==> (r matches ProxyConfigChoice::Ask(c) && c@
            == default_mapping_spec(server@)),
{
    let defaults = ProxyConfig {
        domain: default_domain(server),
        upstream_port: default_upstream_port(server),
    };
    if proxy == ProxyKind::NoProxy {
        return ProxyConfigChoice::Skip;
    }
    if !is_interactive {
        return ProxyConfigChoice::Use(defaults);
    }
    ProxyConfigChoice::Ask(defaults)
}

/// The answers the user gave at the `init` prompts; a field is read only
/// when its prompt is shown.
#[derive(Debug)]
pub struct InitAnswers {
    /// The index of the server picked from the server menu.
    pub server_index: Option<usize>,
    /// The server entered at the new-server prompts.
    pub new_server: Option<Server>,
    /// The proxy chosen.
    pub proxy: Option<ProxyKind>,
    /// The domain and app port entered.
    pub proxy_config: Option<ProxyConfig>,
    /// Whether to install Docker.
    pub install_docker: Option<bool>,
}

/// Whether `init` asks for a new server's details in this situation.
pub open spec fn asks_new_server(c: Seq<ServerView>, requested: Option<Seq<char>>, interactive: bool) -> bool {
    requested is None && interactive && c.len() == 0
}

/// Whether `init` shows the server menu in this situation.
pub open spec fn asks_server_pick(c: Seq<ServerView>, requested: Option<Seq<char>>, interactive: bool) -> bool {
    requested is None && interactive && c.len() > 1
}

/// The server `init` ends up with.
pub open spec fn chosen_server(
    c: Seq<ServerView>,
    requested: Option<Seq<char>>,
    index: Option<usize>,
    new_server: Option<ServerView>,
) -> ServerView {
    match requested {
        Some(n) => lookup_server(c, n)->0,
        None => if c.len() == 0 {
            new_server->0
        } else if c.len() == 1 {
            c[0]
        } else {
            c[index->0 as int]
        },
    }
}

/// The optional view of a server answer.
pub open spec fn opt_server(o: Option<Server>) -> Option<ServerView> {
    match o {
        Some(s) => Some(s@),
        None => None,
    }
}

/// Gathers the setup options: the server (named, the only one, the one
/// picked from the menu, or a new one), the
/// proxy (Caddy without prompts), the mapping (the server's defaults without
/// prompts, none without a proxy) and Docker (installed without prompts).
pub fn collect_init_options(
    config: &Config,
    requested_server: Option<&str>,
    is_interactive: bool,
    answers: InitAnswers,
) -> (r: Result<InitOptions, Error>)
    requires
        asks_new_server(config@, opt_view(requested_server), is_interactive) ==> answers.new_server
            is Some,
        asks_server_pick(config@, opt_view(requested_server), is_interactive) ==> (
        answers.server_index matches Some(i) && i < config@.len()),
        is_interactive ==> answers.proxy is Some && answers.install_docker is Some,
        is_interactive && answers.proxy != Some(ProxyKind::NoProxy) ==> answers.proxy_config is Some,
    ensures
        requested_server is Some && lookup_server(config@, opt_view(requested_server)->0) is None
            ==> (r matches Err(e) && e@ == (ErrorView::ServerNotFound {
            name: opt_view(requested_server)->0,
        })),
        requested_server is None && !is_interactive ==> (r matches Err(e) && e@
            == ErrorView::InitNeedsServer),
        (requested_server is Some && lookup_server(config@, opt_view(requested_server)->0) is Some)
            || (requested_server is None && is_interactive) ==> (r matches Ok(o) && {
            let server = chosen_server(
                config@,
                opt_view(requested_server),
                answers.server_index,
                opt_server(answers.new_server),
            );
            let proxy = if is_interactive {
                answers.proxy->0
            } else {
                ProxyKind::Caddy
            };
            &&& o@.server == server
            &&& o@.proxy == proxy
            &&& o@.proxy_config == if proxy == ProxyKind::NoProxy {
                None
            } else if is_interactive {
                opt_config(answers.proxy_config)
            } else {
                Some(default_mapping_spec(server))
            }
            &&& o@.install_docker == if is_interactive {
                answers.install_docker->0
            } else {
                true
            }
        }),
{
    let server = match select_server(config, requested_server, is_interactive)? {
        ServerChoice::Selected(s) => s,
        ServerChoice::EnterNew => answers.new_server.unwrap(),
        ServerChoice::Pick(_) => config.servers[answers.server_index.unwrap()].clone(),
    };
    let proxy = match select_proxy(is_interactive) {
        Some(p) => p,
        None => answers.proxy.unwrap(),
    };
    let proxy_config = match collect_proxy_config(proxy, &server, is_interactive) {
        ProxyConfigChoice::Skip => None,
        ProxyConfigChoice::Use(c) => Some(c),
        ProxyConfigChoice::Ask(_) => answers.proxy_config,
    };
    let install_docker = match select_docker(is_interactive) {
        Some(d) => d,
        None => answers.install_docker.unwrap(),
    };
    Ok(InitOptions { server, proxy, proxy_config, install_docker })
}

} // verus!
