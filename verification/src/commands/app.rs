//! `app add`, `app list` and `app remove`: the proxy mappings of a server.

use vstd::prelude::*;
use vstd::string::*;
use crate::config::{
    App, AppView, Config, ProxyType, Server, ServerView, app_views, has_app, lookup_server,
    lookup_app, app_position, lemma_app_position, lemma_app_position_at, server_position,
    effective_proxy_spec, position_of_app, proxy_label, };
use crate::error::{Error, ErrorView};
use crate::plan::{RemoteStep, StepView, step_views, push_run, push_proxy_setup, proxy_setup_spec};
use crate::text::{decimal, push_decimal, string_views, pair_views, push_pair};
use crate::ui::prompts::{menu_items_spec, server_menu_items};

verus! {

broadcast use vstd::string::group_string_axioms;

// ---------------------------------------------------------------------------
// Choosing the server and the proxy
// ---------------------------------------------------------------------------

/// Which server a command works on.
#[derive(Debug)]
pub enum ServerNameChoice {
    /// This server.
    Named(String),
    /// Ask the user to pick one of these entries (in the order of the config).
    Pick(Vec<String>),
}

/// The server a command works on: the one asked for, the only one, or a pick
/// from the menu.
pub fn resolve_server_name(config: &Config, requested: Option<&str>) -> (r: ServerNameChoice)
    ensures
        match requested {
            Some(n) => r matches ServerNameChoice::Named(m) && m@ == n@,
            None => if config@.len() == 1 {
                r matches ServerNameChoice::Named(m) && m@ == config@[0].name
            } else {
                r matches ServerNameChoice::Pick(items) && string_views(items@) == menu_items_spec(
                    config@,
                )
            },
        },
{
    if let Some(name) = requested {
        return ServerNameChoice::Named(name.to_string());
    }
    if config.servers.len() == 1 {
        return ServerNameChoice::Named(config.servers[0].name.clone());
    }
    ServerNameChoice::Pick(server_menu_items(config))
}

/// The proxy a new mapping uses when none is given: the server's.
pub fn default_proxy_for_server(server: &Server) -> (r: Option<ProxyType>)
    ensures
        r == effective_proxy_spec(server@),
{
    server.effective_proxy()
}

/// The proxy of a new mapping: the one given, else the server's; `None`
/// means that the user is asked.
pub fn resolve_app_proxy(server: &Server, provided: Option<ProxyType>) -> (r: Option<ProxyType>)
    ensures
        r == match provided {
            Some(p) => Some(p),
            None => effective_proxy_spec(server@),
        },
{
    match provided {
        Some(p) => Some(p),
        None => default_proxy_for_server(server),
    }
}

/// The proxy picked at `index` of the proxy menu (Caddy, Nginx).
pub fn proxy_from_selection(index: usize) -> (r: ProxyType)
    ensures
        r == if index == 0 {
            ProxyType::Caddy
        } else {
            ProxyType::Nginx
        },
{
    match index {
        0 => ProxyType::Caddy,
        _ => ProxyType::Nginx,
    }
}

/// Rejects port 0 as an app's port.
pub fn validate_upstream_port(port: u16) -> (r: Result<(), Error>)
    ensures
        r is Ok <==> port != 0,
        r matches Err(e) ==> e@ == ErrorView::InvalidUpstreamPort,
{
    if port == 0 {
        return Err(Error::InvalidUpstreamPort);
    }
    Ok(())
}

/// The proxy that is re-applied after a removal: the first app's, else Caddy.
pub open spec fn dominant_proxy_spec(s: ServerView) -> ProxyType {
    if s.apps.len() > 0 {
        s.apps[0].proxy
    } else {
        ProxyType::Caddy
    }
}

/// The proxy re-applied after a mapping is removed.
pub fn dominant_proxy(server: &Server) -> (r: ProxyType)
    ensures
        r == dominant_proxy_spec(server@),
{
    if server.apps.len() > 0 {
        server.apps[0].proxy
    } else {
        ProxyType::Caddy
    }
}

// ---------------------------------------------------------------------------
// Adding a mapping
// ---------------------------------------------------------------------------

/// What adding mapping `a` to server `s` gives: the port must not be 0, the
/// domain must be new on the server, and the proxy must be the server's
/// (when it has one); the server then manages that proxy and lists `a` last.
pub open spec fn add_app_spec(s: ServerView, a: AppView) -> Result<ServerView, ErrorView> {
    if a.upstream_port == 0 {
        Err(ErrorView::InvalidUpstreamPort)
    } else if has_app(s.apps, a.domain) {
        Err(ErrorView::AppExists { domain: a.domain, server: s.name })
    } else {
        match effective_proxy_spec(s) {
            Some(p) if p != a.proxy => Err(ErrorView::MixedProxy { server: s.name, existing: p }),
            _ => Ok(ServerView { managed_proxy: Some(a.proxy), apps: s.apps.push(a), ..s }),
        }
    }
}

/// Adds mapping `app` to the server named `server_name` and returns the
/// server as it now stands. Nothing changes when an error is returned.
pub fn add_app(config: &mut Config, server_name: &str, app: App) -> (r: Result<Server, Error>)
    ensures
        match lookup_server(old(config)@, server_name@) {
            None => r matches Err(e) && e@ == (ErrorView::ServerNotFound { name: server_name@ })
                && final(config)@ == old(config)@,
            Some(s) => match add_app_spec(s, app@) {
                Err(ev) => r matches Err(e) && e@ == ev && final(config)@ == old(config)@,
                Ok(t) => r matches Ok(snapshot) && snapshot@ == t && final(config)@ == old(
                    config,
                )@.update(server_position(old(config)@, server_name@) as int, t),
            },
        },
{
    let server = config.find_server_mut(server_name)?;
    if let Err(e) = validate_upstream_port(app.upstream_port) {
        return Err(e);
    }
    let existing = position_of_app(&server.apps, app.domain.as_str());
    proof {
        lemma_app_position(server@.apps, app.domain@);
    }
    if existing < server.apps.len() {
        return Err(Error::AppExists { domain: app.domain.clone(), server: server.name.clone() });
    }
    if let Some(existing_proxy) = default_proxy_for_server(server) {
        if existing_proxy != app.proxy {
            return Err(Error::MixedProxy { server: server.name.clone(), existing: existing_proxy });
        }
    }
    let proxy = app.proxy;
    server.managed_proxy = Some(proxy);
    server.apps.push(app);
    assert(app_views(server.apps@) =~= old(config)@[server_position(
        old(config)@,
        server_name@,
    ) as int].apps.push(app@));
    Ok(server.clone())
}

// ---------------------------------------------------------------------------
// Removing a mapping
// ---------------------------------------------------------------------------

/// The apps of `s` that do not serve `domain`, in order.
pub open spec fn without_domain(s: Seq<AppView>, domain: Seq<char>) -> Seq<AppView>
    decreases s.len(),
{
    if s.len() == 0 {
        seq![]
    } else {
        without_domain(s.drop_last(), domain) + if s.last().domain == domain {
            seq![]
        } else {
            seq![s.last()]
        }
    }
}

/// Which domain `app remove` removes.
#[derive(Debug)]
pub enum DomainChoice {
    /// This domain.
    Chosen(String),
    /// Ask the user to pick one of these entries (in the order of the apps).
    Pick(Vec<String>),
}

/// The menu entry of an app: `domain -> 127.0.0.1:port`.
pub open spec fn app_menu_item_spec(a: AppView) -> Seq<char> {
    a.domain + " -> 127.0.0.1:"@ + decimal(a.upstream_port as nat)
}

/// The menu entries of all apps, in order.
pub open spec fn app_menu_items_spec(s: Seq<AppView>) -> Seq<Seq<char>> {
    s.map_values(|a: AppView| app_menu_item_spec(a))
}

/// The domain to remove: the one given, the only one, or a pick from the
/// menu; an error when the server has no mapping.
pub fn resolve_domain_for_removal(server: &Server, provided: Option<&str>) -> (r: Result<
    DomainChoice,
    Error,
>)
    ensures
        match provided {
            Some(d) => r matches Ok(DomainChoice::Chosen(c)) && c@ == d@,
            None => if server@.apps.len() == 0 {
                r matches Err(e) && e@ == (ErrorView::NoAppsToRemove { server: server@.name })
            } else if server@.apps.len() == 1 {
                r matches Ok(DomainChoice::Chosen(c)) && c@ == server@.apps[0].domain
            } else {
                r matches Ok(DomainChoice::Pick(items)) && string_views(items@)
                    == app_menu_items_spec(server@.apps)
            },
        },
{
    if let Some(domain) = provided {
        return Ok(DomainChoice::Chosen(domain.to_string()));
    }
    if server.apps.len() == 0 {
        return Err(Error::NoAppsToRemove { server: server.name.clone() });
    }
    if server.apps.len() == 1 {
        return Ok(DomainChoice::Chosen(server.apps[0].domain.clone()));
    }
    let mut items: Vec<String> = Vec::new();
    let mut i: usize = 0;
    while i < server.apps.len()
        invariant
            i <= server.apps.len(),
            string_views(items@) == app_menu_items_spec(server@.apps).take(i as int),
        decreases server.apps.len() - i,
    {
        let a = &server.apps[i];
        let mut item = a.domain.clone();
        item.append(" -> 127.0.0.1:");
        push_decimal(&mut item, a.upstream_port as u64);
        assert(string_views(items@.push(item)) =~= string_views(items@).push(item@));
        items.push(item);
        assert(app_menu_items_spec(server@.apps).take(i + 1) =~= app_menu_items_spec(
            server@.apps,
        ).take(i as int).push(app_menu_item_spec(server@.apps[i as int])));
        i += 1;
    }
    assert(app_menu_items_spec(server@.apps).take(server.apps.len() as int)
        =~= app_menu_items_spec(server@.apps));
    Ok(DomainChoice::Pick(items))
}

/// The apps without those for `domain`.
fn apps_without(apps: &Vec<App>, domain: &str) -> (r: Vec<App>)
    ensures
        app_views(r@) == without_domain(app_views(apps@), domain@),
{
    let mut kept: Vec<App> = Vec::new();
    let mut i: usize = 0;
    while i < apps.len()
        invariant
            i <= apps.len(),
            app_views(kept@) == without_domain(app_views(apps@).take(i as int), domain@),
        decreases apps.len() - i,
    {
        let ghost prefix = app_views(apps@).take(i + 1);
        assert(prefix.drop_last() =~= app_views(apps@).take(i as int));
        assert(prefix.last() == apps@[i as int]@);
        if !crate::config::same_text(apps[i].domain.as_str(), domain) {
            let a = apps[i].clone();
            assert(app_views(kept@.push(a)) =~= app_views(kept@).push(a@));
            kept.push(a);
        }
        assert(app_views(kept@) =~= without_domain(prefix, domain@));
        i += 1;
    }
    assert(app_views(apps@).take(apps.len() as int) =~= app_views(apps@));
    kept
}

/// What removing `domain` from server `s` gives: every mapping for it goes;
/// an error when there was none.
pub open spec fn remove_app_spec(s: ServerView, domain: Seq<char>) -> Result<ServerView, ErrorView> {
    if without_domain(s.apps, domain).len() == s.apps.len() {
        Err(ErrorView::DomainNotFound { domain, server: s.name })
    } else {
        Ok(ServerView { apps: without_domain(s.apps, domain), ..s })
    }
}

/// Removes every mapping for `domain` from the server named `server_name`;
/// returns the server as it now stands and the proxy to re-apply (the one of
/// its first app before the removal). Nothing changes when an error is
/// returned.
pub fn remove_app(config: &mut Config, server_name: &str, domain: &str) -> (r: Result<
    (Server, ProxyType),
    Error,
>)
    ensures
        match lookup_server(old(config)@, server_name@) {
            None => r matches Err(e) && e@ == (ErrorView::ServerNotFound { name: server_name@ })
                && final(config)@ == old(config)@,
            Some(s) => match remove_app_spec(s, domain@) {
                Err(ev) => r matches Err(e) && e@ == ev && final(config)@ == old(config)@,
                Ok(t) => r matches Ok(res) && res.0@ == t && res.1 == dominant_proxy_spec(s)
                    && final(config)@ == old(config)@.update(
                    server_position(old(config)@, server_name@) as int,
                    t,
                ),
            },
        },
{
    let server = config.find_server_mut(server_name)?;
    let proxy_to_apply = dominant_proxy(server);
    let kept = apps_without(&server.apps, domain);
    if kept.len() == server.apps.len() {
        return Err(Error::DomainNotFound { domain: domain.to_string(), server: server.name.clone() });
    }
    server.apps = kept;
    Ok((server.clone(), proxy_to_apply))
}

/// The steps that apply `proxy` with the server's mappings: refresh the
/// package index, then install, configure and reload the proxy.
pub open spec fn apply_proxy_spec(s: ServerView, p: ProxyType) -> Seq<StepView> {
    seq![StepView::Run("sudo apt update"@)] + proxy_setup_spec(s, p)
}

/// The remote steps that apply the server's mappings to `proxy`.
pub fn apply_proxy(server: &Server, proxy: ProxyType) -> (r: Vec<RemoteStep>)
    ensures
        step_views(r@) == apply_proxy_spec(server@, proxy),
{
    let mut plan: Vec<RemoteStep> = Vec::new();
    push_run(&mut plan, "sudo apt update");
    push_proxy_setup(&mut plan, server, proxy);
    assert(step_views(plan@) =~= apply_proxy_spec(server@, proxy));
    plan
}

// ---------------------------------------------------------------------------
// Laws of adding and removing mappings
// ---------------------------------------------------------------------------

/// Every server's apps use the proxy the server runs.
pub open spec fn single_proxy(s: ServerView) -> bool {
    forall|i: int| 0 <= i < s.apps.len() ==> Some(#[trigger] s.apps[i].proxy) == effective_proxy_spec(s)
}

/// No two apps of a server serve the same domain.
pub open spec fn unique_domains(apps: Seq<AppView>) -> bool {
    forall|i: int, j: int| 0 <= i < j < apps.len() ==> #[trigger] apps[i].domain != #[trigger] apps[j].domain
}

/// Looking a domain up after one more app was appended.
proof fn lemma_lookup_push(x: Seq<AppView>, y: AppView, k: Seq<char>)
    ensures
        lookup_app(x.push(y), k) == if has_app(x, k) {
            lookup_app(x, k)
        } else if y.domain == k {
            Some(y)
        } else {
            None
        },
{
    let t = x.push(y);
    lemma_app_position(x, k);
    let q = app_position(x, k) as int;
    if q < x.len() {
        assert forall|j: int| 0 <= j < q implies #[trigger] t[j].domain != k by {
            assert(t[j] == x[j]);
        }
        assert(t[q] == x[q]);
        lemma_app_position_at(t, k, q);
    } else {
        assert forall|j: int| 0 <= j < x.len() implies #[trigger] t[j].domain != k by {
            assert(t[j] == x[j]);
        }
        if y.domain == k {
            lemma_app_position_at(t, k, x.len() as int);
        } else {
            assert forall|j: int| 0 <= j < t.len() implies #[trigger] t[j].domain != k by {
                if j < x.len() {
                    assert(t[j] == x[j]);
                }
            }
            lemma_app_position_at(t, k, t.len() as int);
        }
    }
}

/// `lookup_app` finds something exactly when some app has the domain.
proof fn lemma_lookup_has(x: Seq<AppView>, k: Seq<char>)
    ensures
        lookup_app(x, k) is Some <==> has_app(x, k),
{
    lemma_app_position(x, k);
}

/// Removing a domain keeps only apps that were there, and none for it.
proof fn lemma_without_subset(s: Seq<AppView>, d: Seq<char>)
    ensures
        forall|i: int| 0 <= i < without_domain(s, d).len() ==> s.contains(
            #[trigger] without_domain(s, d)[i],
        ) && without_domain(s, d)[i].domain != d,
        without_domain(s, d).len() <= s.len(),
    decreases s.len(),
{
    if s.len() > 0 {
        let p = s.drop_last();
        lemma_without_subset(p, d);
        let w = without_domain(s, d);
        let wp = without_domain(p, d);
        assert forall|i: int| 0 <= i < w.len() implies s.contains(#[trigger] w[i]) && w[i].domain != d by {
            if i < wp.len() {
                assert(w[i] == wp[i]);
                let j = choose|j: int| 0 <= j < p.len() && p[j] == wp[i];
                assert(s[j] == p[j]);
            } else {
                assert(w[i] == s.last());
                assert(s[s.len() - 1] == s.last());
            }
        }
    }
}

/// Removing a domain that no app serves changes nothing.
proof fn lemma_without_absent(s: Seq<AppView>, d: Seq<char>)
    requires
        !has_app(s, d),
    ensures
        without_domain(s, d) == s,
    decreases s.len(),
{
    if s.len() > 0 {
        let p = s.drop_last();
        assert(!has_app(p, d)) by {
            if has_app(p, d) {
                let i = choose|i: int| 0 <= i < p.len() && #[trigger] p[i].domain == d;
                assert(s[i].domain == d);
            }
        }
        lemma_without_absent(p, d);
        assert(s[s.len() - 1].domain != d);
        assert(without_domain(s, d) =~= s);
    }
}

/// Removing one domain does not change what other domains find.
proof fn lemma_without_lookup(s: Seq<AppView>, d: Seq<char>, k: Seq<char>)
    requires
        k != d,
    ensures
        lookup_app(without_domain(s, d), k) == lookup_app(s, k),
    decreases s.len(),
{
    if s.len() == 0 {
        assert(without_domain(s, d) =~= s);
    } else {
        let p = s.drop_last();
        let l = s.last();
        assert(s == p.push(l));
        lemma_without_lookup(p, d, k);
        lemma_lookup_push(p, l, k);
        lemma_lookup_has(p, k);
        lemma_lookup_has(without_domain(p, d), k);
        if l.domain == d {
            assert(without_domain(s, d) == without_domain(p, d));
        } else {
            assert(without_domain(s, d) =~= without_domain(p, d).push(l));
            lemma_lookup_push(without_domain(p, d), l, k);
        }
    }
}

/// Removing a domain keeps domains unique.
proof fn lemma_without_unique(s: Seq<AppView>, d: Seq<char>)
    requires
        unique_domains(s),
    ensures
        unique_domains(without_domain(s, d)),
    decreases s.len(),
{
    if s.len() > 0 {
        let p = s.drop_last();
        let l = s.last();
        assert(unique_domains(p)) by {
            assert forall|i: int, j: int| 0 <= i < j < p.len() implies #[trigger] p[i].domain
                != #[trigger] p[j].domain by {
                assert(p[i] == s[i] && p[j] == s[j]);
            }
        }
        lemma_without_unique(p, d);
        lemma_without_subset(p, d);
        let wp = without_domain(p, d);
        if l.domain != d {
            let w = without_domain(s, d);
            assert(w =~= wp.push(l));
            assert forall|i: int, j: int| 0 <= i < j < w.len() implies #[trigger] w[i].domain
                != #[trigger] w[j].domain by {
                if j == w.len() - 1 {
                    assert(w[i] == wp[i]);
                    assert(p.contains(wp[i]));
                    let m = choose|m: int| 0 <= m < p.len() && p[m] == wp[i];
                    assert(s[m] == p[m]);
                    assert(s[s.len() - 1] == l);
                } else {
                    assert(w[i] == wp[i] && w[j] == wp[j]);
                }
            }
        }
    }
}

/// A mapping is accepted whenever its port is not zero, no mapping of the
/// server has its domain, and its proxy is the one the server runs (if it
/// runs one): the server then lists it last, after all the mappings it had,
/// and manages its proxy. Sharing a port with another mapping is allowed.
pub proof fn law_add_accepts_new_domain(s: ServerView, a: AppView)
    requires
        a.upstream_port != 0,
        forall|i: int| 0 <= i < s.apps.len() ==> (#[trigger] s.apps[i]).domain != a.domain,
        s.managed_proxy is Some ==> s.managed_proxy == Some(a.proxy),
        s.managed_proxy is None && s.apps.len() > 0 ==> s.apps[0].proxy == a.proxy,
    ensures
        add_app_spec(s, a) matches Ok(t) && {
            &&& t.apps.len() == s.apps.len() + 1
            &&& t.apps.last() == a
            &&& forall|i: int| 0 <= i < s.apps.len() ==> #[trigger] t.apps[i] == s.apps[i]
            &&& t.managed_proxy == Some(a.proxy)
            &&& t.name == s.name && t.host == s.host && t.user == s.user && t.port == s.port
            &&& t.ssh_key == s.ssh_key && t.managed_docker == s.managed_docker
        },
{
}

/// Each refusal of `add` has its reason: a zero port (and only then), a
/// mapping with the same domain already on the server, or a proxy other
/// than the one the server runs.
pub proof fn law_add_refusals_have_reasons(s: ServerView, a: AppView)
    ensures
        (add_app_spec(s, a) matches Err(e) && e is InvalidUpstreamPort) <==> a.upstream_port == 0,
        add_app_spec(s, a) matches Err(e) && e is AppExists ==> exists|i: int|
            0 <= i < s.apps.len() && (#[trigger] s.apps[i]).domain == a.domain,
        match add_app_spec(s, a) {
            Err(ErrorView::MixedProxy { existing, .. }) => {
                &&& a.upstream_port != 0
                &&& existing != a.proxy
                &&& (s.managed_proxy == Some(existing) || (s.managed_proxy is None && s.apps.len()
                    > 0 && s.apps[0].proxy == existing))
            },
            _ => true,
        },
{
}

/// A mapping that was added is found again by its domain, the server then
/// runs the mapping's proxy, and every other domain finds what it found
/// before.
pub proof fn law_add_then_lookup(s: ServerView, a: AppView, other: Seq<char>)
    requires
        add_app_spec(s, a) is Ok,
    ensures
        lookup_app(add_app_spec(s, a)->Ok_0.apps, a.domain) == Some(a),
        effective_proxy_spec(add_app_spec(s, a)->Ok_0) == Some(a.proxy),
        other != a.domain ==> lookup_app(add_app_spec(s, a)->Ok_0.apps, other) == lookup_app(
            s.apps,
            other,
        ),
{
    lemma_lookup_push(s.apps, a, a.domain);
    lemma_lookup_push(s.apps, a, other);
    lemma_lookup_has(s.apps, other);
}

/// Removing the domain of a mapping that was just added gives back the apps
/// the server had before.
pub proof fn law_add_then_remove(s: ServerView, a: AppView)
    requires
        add_app_spec(s, a) is Ok,
    ensures
        remove_app_spec(add_app_spec(s, a)->Ok_0, a.domain) is Ok,
        remove_app_spec(add_app_spec(s, a)->Ok_0, a.domain)->Ok_0.apps == s.apps,
{
    let t = add_app_spec(s, a)->Ok_0;
    lemma_without_absent(s.apps, a.domain);
    assert(t.apps.drop_last() =~= s.apps);
    assert(without_domain(t.apps, a.domain) == without_domain(s.apps, a.domain));
}

/// After a removal no mapping serves the domain, and every other domain
/// finds what it found before.
pub proof fn law_remove_then_lookup(s: ServerView, domain: Seq<char>, other: Seq<char>)
    requires
        remove_app_spec(s, domain) is Ok,
    ensures
        lookup_app(remove_app_spec(s, domain)->Ok_0.apps, domain) is None,
        other != domain ==> lookup_app(remove_app_spec(s, domain)->Ok_0.apps, other) == lookup_app(
            s.apps,
            other,
        ),
{
    let w = without_domain(s.apps, domain);
    lemma_without_subset(s.apps, domain);
    lemma_lookup_has(w, domain);
    assert(!has_app(w, domain)) by {
        if has_app(w, domain) {
            let i = choose|i: int| 0 <= i < w.len() && #[trigger] w[i].domain == domain;
        }
    }
    if other != domain {
        lemma_without_lookup(s.apps, domain, other);
    }
}

/// One proxy per server: when all of a server's apps use the proxy it runs,
/// they still do after a mapping is added or removed.
pub proof fn law_single_proxy_kept(s: ServerView, a: AppView, domain: Seq<char>)
    requires
        single_proxy(s),
    ensures
        add_app_spec(s, a) is Ok ==> single_proxy(add_app_spec(s, a)->Ok_0),
        remove_app_spec(s, domain) is Ok ==> single_proxy(remove_app_spec(s, domain)->Ok_0),
{
    if add_app_spec(s, a) is Ok {
        let t = add_app_spec(s, a)->Ok_0;
        assert forall|i: int| 0 <= i < t.apps.len() implies Some(#[trigger] t.apps[i].proxy)
            == effective_proxy_spec(t) by {
            if i < s.apps.len() {
                assert(t.apps[i] == s.apps[i]);
                assert(Some(s.apps[i].proxy) == effective_proxy_spec(s));
            }
        }
    }
    if remove_app_spec(s, domain) is Ok {
        let t = remove_app_spec(s, domain)->Ok_0;
        lemma_without_subset(s.apps, domain);
        assert forall|i: int| 0 <= i < t.apps.len() implies Some(#[trigger] t.apps[i].proxy)
            == effective_proxy_spec(t) by {
            let j = choose|j: int| 0 <= j < s.apps.len() && s.apps[j] == t.apps[i];
            assert(Some(s.apps[j].proxy) == effective_proxy_spec(s));
            if s.managed_proxy is None {
                let j0 = choose|j0: int| 0 <= j0 < s.apps.len() && s.apps[j0] == t.apps[0];
                assert(Some(s.apps[j0].proxy) == effective_proxy_spec(s));
            }
        }
    }
}

/// Distinct domains stay distinct when a mapping is added or removed.
pub proof fn law_unique_domains_kept(s: ServerView, a: AppView, domain: Seq<char>)
    requires
        unique_domains(s.apps),
    ensures
        add_app_spec(s, a) is Ok ==> unique_domains(add_app_spec(s, a)->Ok_0.apps),
        remove_app_spec(s, domain) is Ok ==> unique_domains(remove_app_spec(s, domain)->Ok_0.apps),
{
    if add_app_spec(s, a) is Ok {
        let t = add_app_spec(s, a)->Ok_0;
        assert forall|i: int, j: int| 0 <= i < j < t.apps.len() implies #[trigger] t.apps[i].domain
            != #[trigger] t.apps[j].domain by {
            assert(t.apps[i] == s.apps[i]);
            if j < s.apps.len() {
                assert(t.apps[j] == s.apps[j]);
            }
        }
    }
    lemma_without_unique(s.apps, domain);
}

// ---------------------------------------------------------------------------
// What the commands print
// ---------------------------------------------------------------------------

/// The line `app list` prints for one mapping.
pub open spec fn list_entry_spec(a: AppView) -> Seq<char> {
    "  - "@ + a.domain + " -> 127.0.0.1:"@ + decimal(a.upstream_port as nat) + " ("@ + proxy_label(
        a.proxy,
    ) + ")"@
}

/// The line `app list` prints for `app`.
pub fn app_list_entry(app: &App) -> (r: String)
    ensures
        r@ == list_entry_spec(app@),
{
    let mut r = "  - ".to_string();
    r.append(app.domain.as_str());
    r.append(" -> 127.0.0.1:");
    push_decimal(&mut r, app.upstream_port as u64);
    r.append(" (");
    r.append(app.proxy.label());
    r.append(")");
    r
}

/// The heading of `app list`.
pub fn app_list_heading(server: &Server) -> (r: String)
    ensures
        r@ == "Apps for server '"@ + server@.name + "'"@,
{
    let mut r = "Apps for server '".to_string();
    r.append(server.name.as_str());
    r.append("'");
    r
}

/// What `app list` prints under its heading when the server has no mapping.
pub open spec fn list_empty_notice_spec(s: ServerView) -> Option<Seq<char>> {
    if s.apps.len() == 0 {
        Some("No app mappings saved yet."@)
    } else {
        None
    }
}

/// The notice `app list` shows for a server without mappings, if it has none.
pub fn app_list_empty_notice(server: &Server) -> (r: Option<String>)
    ensures
        opt_string(r) == list_empty_notice_spec(server@),
{
    if server.apps.len() == 0 {
        Some("No app mappings saved yet.".to_string())
    } else {
        None
    }
}

/// The optional view of a string result.
pub open spec fn opt_string(o: Option<String>) -> Option<Seq<char>> {
    match o {
        Some(s) => Some(s@),
        None => None,
    }
}

/// The lines `app list` prints, one per mapping, in the saved order.
pub fn app_list_lines(server: &Server) -> (r: Vec<String>)
    ensures
        r@.len() == server@.apps.len(),
        forall|i: int| 0 <= i < r@.len() ==> #[trigger] r@[i]@ == list_entry_spec(server@.apps[i]),
{
    let mut r: Vec<String> = Vec::new();
    let mut i: usize = 0;
    while i < server.apps.len()
        invariant
            i <= server.apps.len(),
            r@.len() == i,
            forall|j: int| 0 <= j < i ==> #[trigger] r@[j]@ == list_entry_spec(server@.apps[j]),
        decreases server.apps.len() - i,
    {
        let line = app_list_entry(&server.apps[i]);
        r.push(line);
        i = i + 1;
    }
    r
}

/// `127.0.0.1:<port>`, the address a mapping forwards to.
pub fn upstream_address(port: u16) -> (r: String)
    ensures
        r@ == "127.0.0.1:"@ + decimal(port as nat),
{
    let mut r = "127.0.0.1:".to_string();
    push_decimal(&mut r, port as u64);
    r
}

/// The fields printed after a mapping was added.
pub fn add_summary(server: &Server, app: &App) -> (r: Vec<(String, String)>)
    ensures
        pair_views(r@) == seq![
            ("server"@, server@.name),
            ("domain"@, app@.domain),
            ("proxy"@, proxy_label(app@.proxy)),
            ("upstream"@, "127.0.0.1:"@ + decimal(app@.upstream_port as nat)),
        ],
{
    let mut r: Vec<(String, String)> = Vec::new();
    push_pair(&mut r, "server", server.name.clone());
    push_pair(&mut r, "domain", app.domain.clone());
    push_pair(&mut r, "proxy", app.proxy.label().to_string());
    push_pair(&mut r, "upstream", upstream_address(app.upstream_port));
    assert(pair_views(r@) =~= seq![
        ("server"@, server@.name),
        ("domain"@, app@.domain),
        ("proxy"@, proxy_label(app@.proxy)),
        ("upstream"@, "127.0.0.1:"@ + decimal(app@.upstream_port as nat)),
    ]);
    r
}

} // verus!
