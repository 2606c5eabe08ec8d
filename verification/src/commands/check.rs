//! `check`: what is probed on a server and how the answers are read.

use vstd::prelude::*;
use vstd::string::*;
use crate::config::{AppView, ProxyType, Server, ServerView};
use crate::text::{parse_u16, parse_u16_spec, split_whitespace, to_chars, tokens_of, views};

verus! {

broadcast use vstd::string::group_string_axioms;

/// The first word that reads as a `u16`.
pub open spec fn first_number(ts: Seq<Seq<char>>) -> Option<u16>
    decreases ts.len(),
{
    if ts.len() == 0 {
        None
    } else {
        match parse_u16_spec(ts[0]) {
            Some(v) => Some(v),
            None => first_number(ts.drop_first()),
        }
    }
}

/// Whether a status line reports success: its first number is 200 to 399.
pub open spec fn probe_ok_spec(response: Seq<char>) -> bool {
    match first_number(tokens_of(response)) {
        Some(status) => 200 <= status && status <= 399,
        None => false,
    }
}

/// Whether the first line of an HTTP response reports success or a redirect.
pub fn is_successful_probe_response(response: &str) -> (r: bool)
    ensures
        r == probe_ok_spec(response@),
{
    let words = split_whitespace(&to_chars(response));
    let ghost all = views(words@);
    let mut i: usize = 0;
    assert(all.skip(0) =~= all);
    while i < words.len()
        invariant
            i <= words.len(),
            all == views(words@),
            all == tokens_of(response@),
            first_number(all) == first_number(all.skip(i as int)),
        decreases words.len() - i,
    {
        assert(all.skip(i as int)[0] == words@[i as int]@);
        assert(all.skip(i as int).drop_first() =~= all.skip(i + 1));
        match parse_u16(&words[i]) {
            Some(status) => {
                return 200 <= status && status <= 399;
            },
            None => {},
        }
        i += 1;
    }
    assert(all.skip(i as int) =~= Seq::<Seq<char>>::empty());
    false
}

/// The proxies that the apps use, each once, in order of first use.
pub open spec fn distinct_proxies(apps: Seq<AppView>) -> Seq<ProxyType>
    decreases apps.len(),
{
    if apps.len() == 0 {
        seq![]
    } else {
        let acc = distinct_proxies(apps.drop_last());
        if acc.contains(apps.last().proxy) {
            acc
        } else {
            acc.push(apps.last().proxy)
        }
    }
}

/// The proxies `check` looks for: those the apps use, or Caddy when there
/// are no apps.
pub open spec fn checked_proxies_spec(s: ServerView) -> Seq<ProxyType> {
    if distinct_proxies(s.apps).len() == 0 {
        seq![ProxyType::Caddy]
    } else {
        distinct_proxies(s.apps)
    }
}

fn contains_proxy(v: &Vec<ProxyType>, p: ProxyType) -> (r: bool)
    ensures
        r == v@.contains(p),
{
    let mut i: usize = 0;
    while i < v.len()
        invariant
            i <= v.len(),
            forall|j: int| 0 <= j < i ==> v@[j] != p,
        decreases v.len() - i,
    {
        if v[i] == p {
            assert(v@[i as int] == p);
            return true;
        }
        i += 1;
    }
    false
}

/// The proxies whose installation `check` verifies.
pub fn proxy_types_for_server(server: &Server) -> (r: Vec<ProxyType>)
    ensures
        r@ == checked_proxies_spec(server@),
{
    let mut proxies: Vec<ProxyType> = Vec::new();
    let ghost apps = server@.apps;
    let mut i: usize = 0;
    while i < server.apps.len()
        invariant
            i <= server.apps.len(),
            apps == server@.apps,
            proxies@ == distinct_proxies(apps.take(i as int)),
        decreases server.apps.len() - i,
    {
        let ghost prefix = apps.take(i + 1);
        assert(prefix.drop_last() =~= apps.take(i as int));
        assert(prefix.last() == server.apps@[i as int]@);
        let p = server.apps[i].proxy;
        if !contains_proxy(&proxies, p) {
            proxies.push(p);
        }
        i += 1;
    }
    assert(apps.take(server.apps.len() as int) =~= apps);
    if proxies.len() == 0 {
        proxies.push(ProxyType::Caddy);
        assert(proxies@ =~= seq![ProxyType::Caddy]);
    }
    proxies
}

/// The proxies checked for a server occur once each, and they are exactly
/// the proxies its apps use (Caddy when it has no apps).
pub proof fn law_checked_proxies(s: ServerView, p: ProxyType)
    ensures
        checked_proxies_spec(s).no_duplicates(),
        s.apps.len() > 0 ==> (checked_proxies_spec(s).contains(p) <==> exists|i: int|
            0 <= i < s.apps.len() && #[trigger] s.apps[i].proxy == p),
        s.apps.len() == 0 ==> checked_proxies_spec(s) == seq![ProxyType::Caddy],
{
    lemma_distinct_proxies(s.apps, p);
    if s.apps.len() > 0 {
        lemma_distinct_proxies(s.apps, s.apps[0].proxy);
        assert(s.apps[0].proxy == s.apps[0].proxy);
        assert(distinct_proxies(s.apps).contains(s.apps[0].proxy));
    }
}

proof fn lemma_distinct_proxies(apps: Seq<AppView>, p: ProxyType)
    ensures
        distinct_proxies(apps).no_duplicates(),
        distinct_proxies(apps).contains(p) <==> exists|i: int| 0 <= i < apps.len() && #[trigger] apps[i].proxy == p,
    decreases apps.len(),
{
    if apps.len() > 0 {
        let prev = apps.drop_last();
        lemma_distinct_proxies(prev, p);
        lemma_distinct_proxies(prev, apps.last().proxy);
        let acc = distinct_proxies(prev);
        if distinct_proxies(apps).contains(p) {
            if acc.contains(p) {
                let i = choose|i: int| 0 <= i < prev.len() && #[trigger] prev[i].proxy == p;
                assert(apps[i] == prev[i]);
            } else {
                assert(apps[apps.len() - 1].proxy == p);
            }
        }
        if exists|i: int| 0 <= i < apps.len() && #[trigger] apps[i].proxy == p {
            let i = choose|i: int| 0 <= i < apps.len() && #[trigger] apps[i].proxy == p;
            if i < apps.len() - 1 {
                assert(prev[i] == apps[i]);
                assert(acc.contains(p));
                if !acc.contains(apps.last().proxy) {
                    assert(acc.push(apps.last().proxy)[acc.index_of(p)] == p);
                }
            } else {
                if !acc.contains(apps.last().proxy) {
                    assert(acc.push(apps.last().proxy)[acc.len() as int] == p);
                }
            }
        }
    }
}

/// The command that fetches the status line of an app through the proxy.
pub open spec fn probe_command_spec(domain: Seq<char>) -> Seq<char> {
    "curl -I -H 'Host: "@ + domain + "' http://127.0.0.1 2>/dev/null | head -n 1"@
}

/// The command that fetches the status line of `domain` through the proxy.
pub fn probe_command(domain: &str) -> (r: String)
    ensures
        r@ == probe_command_spec(domain@),
{
    let mut r = "curl -I -H 'Host: ".to_string();
    r.append(domain);
    r.append("' http://127.0.0.1 2>/dev/null | head -n 1");
    r
}

/// The command whose success shows that a proxy is installed.
pub fn proxy_check_command(proxy: ProxyType) -> (r: &'static str)
    ensures
        r@ == match proxy {
            ProxyType::Caddy => "caddy version"@,
            ProxyType::Nginx => "nginx -v"@,
        },
{
    match proxy {
        ProxyType::Caddy => "caddy version",
        ProxyType::Nginx => "nginx -v",
    }
}

} // verus!
