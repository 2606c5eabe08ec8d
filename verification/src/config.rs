//! The server configuration model: servers, their app mappings and the
//! lookups and updates that the commands make on it.

use vstd::prelude::*;
use vstd::string::*;
use crate::error::{Error, ErrorView};
use crate::text::to_chars;

verus! {

broadcast use vstd::string::group_string_axioms;

/// Which reverse proxy serves a server's apps.
#[derive(Debug, Clone, Copy, PartialEq, Eq, Structural)]
pub enum ProxyType {
    Caddy,
    Nginx,
}

/// The display name of a proxy.
pub open spec fn proxy_label(p: ProxyType) -> Seq<char> {
    match p {
        ProxyType::Caddy => "Caddy"@,
        ProxyType::Nginx => "Nginx"@,
    }
}

impl ProxyType {
    /// The display name of the proxy.
    pub fn label(self) -> (r: &'static str)
        ensures
            r@ == proxy_label(self),
    {
        match self {
            ProxyType::Caddy => "Caddy",
            ProxyType::Nginx => "Nginx",
        }
    }
}

/// A reverse proxy mapping from a domain to a local port.
#[derive(Debug)]
pub struct App {
    pub domain: String,
    pub upstream_port: u16,
    pub proxy: ProxyType,
}

/// The mathematical value of an [`App`].
pub struct AppView {
    pub domain: Seq<char>,
    pub upstream_port: u16,
    pub proxy: ProxyType,
}

impl View for App {
    type V = AppView;

    open spec fn view(&self) -> AppView {
        AppView { domain: self.domain@, upstream_port: self.upstream_port, proxy: self.proxy }
    }
}

impl Clone for App {
    fn clone(&self) -> (r: Self)
        ensures
            r@ == self@,
    {
        App { domain: self.domain.clone(), upstream_port: self.upstream_port, proxy: self.proxy }
    }
}

/// A server that the tool manages over SSH.
#[derive(Debug)]
pub struct Server {
    pub name: String,
    pub host: String,
    pub user: String,
    pub port: u16,
    pub ssh_key: String,
    pub managed_docker: bool,
    pub managed_proxy: Option<ProxyType>,
    pub apps: Vec<App>,
}

/// The mathematical value of a [`Server`].
pub struct ServerView {
    pub name: Seq<char>,
    pub host: Seq<char>,
    pub user: Seq<char>,
    pub port: u16,
    pub ssh_key: Seq<char>,
    pub managed_docker: bool,
    pub managed_proxy: Option<ProxyType>,
    pub apps: Seq<AppView>,
}

/// The views of a sequence of apps.
pub open spec fn app_views(apps: Seq<App>) -> Seq<AppView> {
    apps.map_values(|a: App| a@)
}

/// The views of a sequence of servers.
pub open spec fn server_views(servers: Seq<Server>) -> Seq<ServerView> {
    servers.map_values(|s: Server| s@)
}

impl View for Server {
    type V = ServerView;

    open spec fn view(&self) -> ServerView {
        ServerView {
            name: self.name@,
            host: self.host@,
            user: self.user@,
            port: self.port,
            ssh_key: self.ssh_key@,
            managed_docker: self.managed_docker,
            managed_proxy: self.managed_proxy,
            apps: app_views(self.apps@),
        }
    }
}

/// A copy of `apps`, element by element.
pub fn clone_apps(apps: &Vec<App>) -> (r: Vec<App>)
    ensures
        app_views(r@) == app_views(apps@),
{
    let mut r: Vec<App> = Vec::new();
    let mut i: usize = 0;
    while i < apps.len()
        invariant
            i <= apps.len(),
            app_views(r@) == app_views(apps@).take(i as int),
        decreases apps.len() - i,
    {
        let a = apps[i].clone();
        proof {
            assert(app_views(r@.push(a)) =~= app_views(r@).push(a@));
            assert(app_views(apps@).take(i + 1) =~= app_views(apps@).take(i as int).push(apps@[i as int]@));
        }
        r.push(a);
        i += 1;
    }
    assert(app_views(apps@).take(apps.len() as int) =~= app_views(apps@));
    r
}

impl Clone for Server {
    fn clone(&self) -> (r: Self)
        ensures
            r@ == self@,
    {
        Server {
            name: self.name.clone(),
            host: self.host.clone(),
            user: self.user.clone(),
            port: self.port,
            ssh_key: self.ssh_key.clone(),
            managed_docker: self.managed_docker,
            managed_proxy: self.managed_proxy,
            apps: clone_apps(&self.apps),
        }
    }
}

/// The whole configuration file: the list of servers.
#[derive(Debug)]
pub struct Config {
    pub servers: Vec<Server>,
}

impl View for Config {
    type V = Seq<ServerView>;

    open spec fn view(&self) -> Seq<ServerView> {
        server_views(self.servers@)
    }
}

// ---------------------------------------------------------------------------
// Lookup by name: the first entry whose key matches
// ---------------------------------------------------------------------------

/// Position of the first server named `name`, or `s.len()` when there is none.
pub open spec fn server_position(s: Seq<ServerView>, name: Seq<char>) -> nat
    decreases s.len(),
{
    if s.len() == 0 {
        0
    } else if s[0].name == name {
        0
    } else {
        1 + server_position(s.drop_first(), name)
    }
}

/// Whether some server is named `name`.
pub open spec fn has_server(s: Seq<ServerView>, name: Seq<char>) -> bool {
    exists|i: int| 0 <= i < s.len() && #[trigger] s[i].name == name
}

/// The first server named `name` (`iter().find`).
pub open spec fn lookup_server(s: Seq<ServerView>, name: Seq<char>) -> Option<ServerView> {
    if server_position(s, name) < s.len() {
        Some(s[server_position(s, name) as int])
    } else {
        None
    }
}

/// `s` with the first server named `server.name` replaced by `server`, or with
/// `server` appended when there is none.
pub open spec fn upsert_server_spec(s: Seq<ServerView>, server: ServerView) -> Seq<ServerView> {
    if server_position(s, server.name) < s.len() {
        s.update(server_position(s, server.name) as int, server)
    } else {
        s.push(server)
    }
}

pub proof fn lemma_server_position(s: Seq<ServerView>, name: Seq<char>)
    ensures
        server_position(s, name) <= s.len(),
        server_position(s, name) < s.len() <==> has_server(s, name),
        server_position(s, name) < s.len() ==> s[server_position(s, name) as int].name == name,
        forall|j: int| 0 <= j < server_position(s, name) ==> #[trigger] s[j].name != name,
    decreases s.len(),
{
    if s.len() > 0 && s[0].name != name {
        let t = s.drop_first();
        lemma_server_position(t, name);
        assert forall|j: int| 0 <= j < server_position(s, name) implies #[trigger] s[j].name != name by {
            if j > 0 {
                assert(s[j] == t[j - 1]);
            }
        }
        if has_server(s, name) {
            let i = choose|i: int| 0 <= i < s.len() && #[trigger] s[i].name == name;
            assert(t[i - 1].name == name);
        }
        if has_server(t, name) {
            let i = choose|i: int| 0 <= i < t.len() && #[trigger] t[i].name == name;
            assert(s[i + 1].name == name);
        }
    } else if s.len() > 0 {
        assert(s[0].name == name);
    }
}

pub proof fn lemma_server_position_at(s: Seq<ServerView>, name: Seq<char>, i: int)
    requires
        0 <= i <= s.len(),
        forall|j: int| 0 <= j < i ==> #[trigger] s[j].name != name,
        i == s.len() || s[i].name == name,
    ensures
        server_position(s, name) == i,
    decreases i,
{
    if i > 0 {
        assert(s[0].name != name);
        assert forall|j: int| 0 <= j < i - 1 implies #[trigger] s.drop_first()[j].name != name by {
            assert(s.drop_first()[j] == s[j + 1]);
        }
        if i < s.len() {
            assert(s.drop_first()[i - 1] == s[i]);
        }
        lemma_server_position_at(s.drop_first(), name, i - 1);
    }
}

/// Position of the first app for `domain`, or `s.len()` when there is none.
pub open spec fn app_position(s: Seq<AppView>, domain: Seq<char>) -> nat
    decreases s.len(),
{
    if s.len() == 0 {
        0
    } else if s[0].domain == domain {
        0
    } else {
        1 + app_position(s.drop_first(), domain)
    }
}

/// Whether some app serves `domain`.
pub open spec fn has_app(s: Seq<AppView>, domain: Seq<char>) -> bool {
    exists|i: int| 0 <= i < s.len() && #[trigger] s[i].domain == domain
}

/// The first app for `domain`.
pub open spec fn lookup_app(s: Seq<AppView>, domain: Seq<char>) -> Option<AppView> {
    if app_position(s, domain) < s.len() {
        Some(s[app_position(s, domain) as int])
    } else {
        None
    }
}

/// `s` with the first app for `app.domain` replaced by `app`, or with `app`
/// appended when there is none.
pub open spec fn upsert_app_spec(s: Seq<AppView>, app: AppView) -> Seq<AppView> {
    if app_position(s, app.domain) < s.len() {
        s.update(app_position(s, app.domain) as int, app)
    } else {
        s.push(app)
    }
}

pub proof fn lemma_app_position(s: Seq<AppView>, domain: Seq<char>)
    ensures
        app_position(s, domain) <= s.len(),
        app_position(s, domain) < s.len() <==> has_app(s, domain),
        app_position(s, domain) < s.len() ==> s[app_position(s, domain) as int].domain == domain,
        forall|j: int| 0 <= j < app_position(s, domain) ==> #[trigger] s[j].domain != domain,
    decreases s.len(),
{
    if s.len() > 0 && s[0].domain != domain {
        let t = s.drop_first();
        lemma_app_position(t, domain);
        assert forall|j: int| 0 <= j < app_position(s, domain) implies #[trigger] s[j].domain != domain by {
            if j > 0 {
                assert(s[j] == t[j - 1]);
            }
        }
        if has_app(s, domain) {
            let i = choose|i: int| 0 <= i < s.len() && #[trigger] s[i].domain == domain;
            assert(t[i - 1].domain == domain);
        }
        if has_app(t, domain) {
            let i = choose|i: int| 0 <= i < t.len() && #[trigger] t[i].domain == domain;
            assert(s[i + 1].domain == domain);
        }
    } else if s.len() > 0 {
        assert(s[0].domain == domain);
    }
}

pub proof fn lemma_app_position_at(s: Seq<AppView>, domain: Seq<char>, i: int)
    requires
        0 <= i <= s.len(),
        forall|j: int| 0 <= j < i ==> #[trigger] s[j].domain != domain,
        i == s.len() || s[i].domain == domain,
    ensures
        app_position(s, domain) == i,
    decreases i,
{
    if i > 0 {
        assert(s[0].domain != domain);
        assert forall|j: int| 0 <= j < i - 1 implies #[trigger] s.drop_first()[j].domain != domain by {
            assert(s.drop_first()[j] == s[j + 1]);
        }
        if i < s.len() {
            assert(s.drop_first()[i - 1] == s[i]);
        }
        lemma_app_position_at(s.drop_first(), domain, i - 1);
    }
}

/// Whether two strings hold the same characters.
pub fn same_text(a: &str, b: &str) -> (r: bool)
    ensures
        r == (a@ == b@),
{
    let x = to_chars(a);
    let y = to_chars(b);
    if x.len() != y.len() {
        return false;
    }
    let mut i: usize = 0;
    while i < x.len()
        invariant
            x.len() == y.len(),
            x@ == a@,
            y@ == b@,
            i <= x.len(),
            forall|j: int| 0 <= j < i ==> x@[j] == y@[j],
        decreases x.len() - i,
    {
        if x[i] != y[i] {
            assert(x@[i as int] != y@[i as int]);
            assert(a@ != b@);
            return false;
        }
        i += 1;
    }
    assert(x@ =~= y@);
    true
}

/// Index of the first server named `name` in `servers`, or `servers.len()`.
fn position_of_server(servers: &Vec<Server>, name: &str) -> (i: usize)
    ensures
        i == server_position(server_views(servers@), name@),
        i <= servers.len(),
{
    let ghost s = server_views(servers@);
    let mut i: usize = 0;
    while i < servers.len()
        invariant
            i <= servers.len(),
            s == server_views(servers@),
            forall|j: int| 0 <= j < i ==> #[trigger] s[j].name != name@,
        decreases servers.len() - i,
    {
        if same_text(servers[i].name.as_str(), name) {
            proof {
                lemma_server_position_at(s, name@, i as int);
            }
            return i;
        }
        i += 1;
    }
    proof {
        lemma_server_position_at(s, name@, i as int);
    }
    i
}

/// Index of the first app for `domain` in `apps`, or `apps.len()`.
pub fn position_of_app(apps: &Vec<App>, domain: &str) -> (i: usize)
    ensures
        i == app_position(app_views(apps@), domain@),
        i <= apps.len(),
{
    let ghost s = app_views(apps@);
    let mut i: usize = 0;
    while i < apps.len()
        invariant
            i <= apps.len(),
            s == app_views(apps@),
            forall|j: int| 0 <= j < i ==> #[trigger] s[j].domain != domain@,
        decreases apps.len() - i,
    {
        if same_text(apps[i].domain.as_str(), domain) {
            proof {
                lemma_app_position_at(s, domain@, i as int);
            }
            return i;
        }
        i += 1;
    }
    proof {
        lemma_app_position_at(s, domain@, i as int);
    }
    i
}

impl Config {
    /// The first server named `name`.
    pub fn find_server(&self, name: &str) -> (r: Result<&Server, Error>)
        ensures
            match r {
                Ok(s) => lookup_server(self@, name@) == Some(s@),
                Err(e) => lookup_server(self@, name@) is None && e@ == ErrorView::ServerNotFound {
                    name: name@,
                },
            },
    {
        let i = position_of_server(&self.servers, name);
        if i < self.servers.len() {
            Ok(&self.servers[i])
        } else {
            Err(Error::ServerNotFound { name: name.to_string() })
        }
    }

    /// Whether the configuration lists at least one server.
    pub fn validate(&self) -> (r: Result<(), Error>)
        ensures
            r is Ok <==> self@.len() > 0,
            r matches Err(e) ==> e@ == ErrorView::NoServers,
    {
        if self.servers.len() == 0 {
            Err(Error::NoServers)
        } else {
            Ok(())
        }
    }

    /// The first server named `name`, for in-place changes.
    pub fn find_server_mut(&mut self, name: &str) -> (r: Result<&mut Server, Error>)
        ensures
            match r {
                Ok(s) => {
                    &&& lookup_server(old(self)@, name@) == Some(s@)
                    &&& final(self)@ == old(self)@.update(
                        server_position(old(self)@, name@) as int,
                        final(s)@,
                    )
                },
                Err(e) => {
                    &&& lookup_server(old(self)@, name@) is None
                    &&& e@ == ErrorView::ServerNotFound { name: name@ }
                    &&& final(self)@ == old(self)@
                },
            },
    {
        let i = position_of_server(&self.servers, name);
        if i < self.servers.len() {
            Ok(&mut self.servers[i])
        } else {
            Err(Error::ServerNotFound { name: name.to_string() })
        }
    }

    /// Replaces the first server with the same name, or appends `server`.
    pub fn upsert_server(&mut self, server: Server)
        ensures
            final(self)@ == upsert_server_spec(old(self)@, server@),
    {
        let i = position_of_server(&self.servers, server.name.as_str());
        proof {
            lemma_server_position(old(self)@, server.name@);
        }
        if i < self.servers.len() {
            self.servers.set(i, server);
            assert(self@ =~= upsert_server_spec(old(self)@, server@));
        } else {
            self.servers.push(server);
            assert(self@ =~= upsert_server_spec(old(self)@, server@));
        }
    }
}

/// `user@host`.
pub open spec fn destination_spec(s: ServerView) -> Seq<char> {
    s.user + "@"@ + s.host
}

/// The proxy a server runs: the one it manages, else that of its first app.
pub open spec fn effective_proxy_spec(s: ServerView) -> Option<ProxyType> {
    match s.managed_proxy {
        Some(p) => Some(p),
        None => if s.apps.len() > 0 {
            Some(s.apps[0].proxy)
        } else {
            None
        },
    }
}

impl Server {
    /// A server entered by hand: not yet managed, with no app mappings.
    pub fn new(name: String, host: String, user: String, port: u16, ssh_key: String) -> (r: Server)
        ensures
            r@ == (ServerView {
                name: name@,
                host: host@,
                user: user@,
                port,
                ssh_key: ssh_key@,
                managed_docker: false,
                managed_proxy: None,
                apps: Seq::empty(),
            }),
    {
        let r = Server {
            name,
            host,
            user,
            port,
            ssh_key,
            managed_docker: false,
            managed_proxy: None,
            apps: Vec::new(),
        };
        proof {
            assert(app_views(r.apps@) =~= Seq::<AppView>::empty());
        }
        r
    }

    /// The SSH destination, `user@host`.
    pub fn destination(&self) -> (r: String)
        ensures
            r@ == destination_spec(self@),
    {
        let mut r = String::new();
        r.append(self.user.as_str());
        r.append("@");
        r.append(self.host.as_str());
        r
    }

    /// Replaces the first app with the same domain, or appends `app`.
    pub fn upsert_app(&mut self, app: App)
        ensures
            final(self)@ == (ServerView { apps: upsert_app_spec(old(self)@.apps, app@), ..old(self)@ }),
    {
        let i = position_of_app(&self.apps, app.domain.as_str());
        proof {
            lemma_app_position(old(self)@.apps, app.domain@);
        }
        if i < self.apps.len() {
            self.apps.set(i, app);
            assert(app_views(self.apps@) =~= upsert_app_spec(old(self)@.apps, app@));
        } else {
            self.apps.push(app);
            assert(app_views(self.apps@) =~= upsert_app_spec(old(self)@.apps, app@));
        }
    }

    /// The proxy this server runs: the managed one, else the first app's.
    pub fn effective_proxy(&self) -> (r: Option<ProxyType>)
        ensures
            r == effective_proxy_spec(self@),
    {
        match self.managed_proxy {
            Some(p) => Some(p),
            None => if self.apps.len() > 0 {
                Some(self.apps[0].proxy)
            } else {
                None
            },
        }
    }
}

// ---------------------------------------------------------------------------
// Laws of lookup and upsert
// ---------------------------------------------------------------------------

/// After a server is upserted, looking its name up gives that server back,
/// and looking up any other name gives what it gave before.
pub proof fn law_upsert_server_then_lookup(s: Seq<ServerView>, server: ServerView, other: Seq<char>)
    ensures
        lookup_server(upsert_server_spec(s, server), server.name) == Some(server),
        other != server.name ==> lookup_server(upsert_server_spec(s, server), other)
            == lookup_server(s, other),
{
    let name = server.name;
    let t = upsert_server_spec(s, server);
    lemma_server_position(s, name);
    lemma_server_position(s, other);
    let p = server_position(s, name) as int;
    let q = server_position(s, other) as int;
    if p < s.len() {
        assert forall|j: int| 0 <= j < p implies #[trigger] t[j].name != name by {
            assert(t[j] == s[j]);
        }
        lemma_server_position_at(t, name, p);
        if other != name {
            assert(q != p);
            assert forall|j: int| 0 <= j < q implies #[trigger] t[j].name != other by {
                if j != p {
                    assert(t[j] == s[j]);
                }
            }
            if q < s.len() {
                assert(t[q] == s[q]);
            }
            lemma_server_position_at(t, other, q);
        }
    } else {
        assert forall|j: int| 0 <= j < s.len() implies #[trigger] t[j].name != name by {
            assert(t[j] == s[j]);
        }
        lemma_server_position_at(t, name, s.len() as int);
        if other != name {
            if q < s.len() {
                assert forall|j: int| 0 <= j < q implies #[trigger] t[j].name != other by {
                    assert(t[j] == s[j]);
                }
                assert(t[q] == s[q]);
                lemma_server_position_at(t, other, q);
            } else {
                assert forall|j: int| 0 <= j < t.len() implies #[trigger] t[j].name != other by {
                    if j < s.len() {
                        assert(t[j] == s[j]);
                    }
                }
                lemma_server_position_at(t, other, t.len() as int);
            }
        }
    }
}

/// After an app is upserted, looking its domain up gives that app back, and
/// looking up any other domain gives what it gave before.
pub proof fn law_upsert_app_then_lookup(s: Seq<AppView>, app: AppView, other: Seq<char>)
    ensures
        lookup_app(upsert_app_spec(s, app), app.domain) == Some(app),
        other != app.domain ==> lookup_app(upsert_app_spec(s, app), other) == lookup_app(s, other),
{
    let name = app.domain;
    let t = upsert_app_spec(s, app);
    lemma_app_position(s, name);
    lemma_app_position(s, other);
    let p = app_position(s, name) as int;
    let q = app_position(s, other) as int;
    if p < s.len() {
        assert forall|j: int| 0 <= j < p implies #[trigger] t[j].domain != name by {
            assert(t[j] == s[j]);
        }
        lemma_app_position_at(t, name, p);
        if other != name {
            assert(q != p);
            assert forall|j: int| 0 <= j < q implies #[trigger] t[j].domain != other by {
                if j != p {
                    assert(t[j] == s[j]);
                }
            }
            if q < s.len() {
                assert(t[q] == s[q]);
            }
            lemma_app_position_at(t, other, q);
        }
    } else {
        assert forall|j: int| 0 <= j < s.len() implies #[trigger] t[j].domain != name by {
            assert(t[j] == s[j]);
        }
        lemma_app_position_at(t, name, s.len() as int);
        if other != name {
            if q < s.len() {
                assert forall|j: int| 0 <= j < q implies #[trigger] t[j].domain != other by {
                    assert(t[j] == s[j]);
                }
                assert(t[q] == s[q]);
                lemma_app_position_at(t, other, q);
            } else {
                assert forall|j: int| 0 <= j < t.len() implies #[trigger] t[j].domain != other by {
                    if j < s.len() {
                        assert(t[j] == s[j]);
                    }
                }
                lemma_app_position_at(t, other, t.len() as int);
            }
        }
    }
}

/// An upsert never removes a server: the list grows by one exactly when the
/// name was new.
pub proof fn law_upsert_server_len(s: Seq<ServerView>, server: ServerView)
    ensures
        upsert_server_spec(s, server).len() == if has_server(s, server.name) {
            s.len()
        } else {
            s.len() + 1
        },
{
    lemma_server_position(s, server.name);
}

/// The SSH port a server entry gets when the file does not give one.
pub fn default_ssh_port() -> (r: u16)
    ensures
        r == 22,
{
    22
}

} // verus!
