//! The summary `init` shows before it applies anything.

use vstd::prelude::*;
use vstd::string::*;
use crate::config::{AppView, destination_spec};
use crate::commands::init::with_mapping;
use crate::proxy::{
    caddy_block, nginx_block, caddy_block_text, nginx_block_text, app_preview, app_blocks,
    proxy_config_spec,
};
use crate::text::{decimal, join, push_decimal, pair_views, push_pair};
use crate::ui::prompts::{InitOptions, InitOptionsView, ProxyKind, kind_label, kind_proxy};

verus! {

broadcast use vstd::string::group_string_axioms;

/// The proxy block shown for the chosen mapping: in the syntax of the chosen
/// proxy, empty without a proxy or a mapping.
pub open spec fn preview_spec(o: InitOptionsView) -> Seq<char> {
    match o.proxy_config {
        None => Seq::empty(),
        Some(c) => match o.proxy {
            ProxyKind::Caddy => caddy_block(c.domain, c.upstream_port),
            ProxyKind::Nginx => nginx_block(c.domain, c.upstream_port),
            ProxyKind::NoProxy => Seq::empty(),
        },
    }
}

/// The proxy block shown for the chosen mapping.
pub fn proxy_config_preview(options: &InitOptions) -> (r: String)
    ensures
        r@ == preview_spec(options@),
{
    let proxy_config = match &options.proxy_config {
        Some(c) => c,
        None => {
            return String::new();
        },
    };
    match options.proxy {
        ProxyKind::Caddy => caddy_block_text(proxy_config.domain.as_str(), proxy_config.upstream_port),
        ProxyKind::Nginx => nginx_block_text(proxy_config.domain.as_str(), proxy_config.upstream_port),
        ProxyKind::NoProxy => String::new(),
    }
}

/// The fields of the summary, in order: the mapping's fields come last and
/// only when there is a mapping.
pub open spec fn summary_fields_spec(o: InitOptionsView) -> Seq<(Seq<char>, Seq<char>)> {
    seq![
        ("Server"@, o.server.name),
        ("Target"@, destination_spec(o.server)),
        ("User"@, o.server.user),
        ("Port"@, decimal(o.server.port as nat)),
        ("SSH key"@, o.server.ssh_key),
        ("Proxy"@, kind_label(o.proxy)),
        ("Docker"@, if o.install_docker { "Yes"@ } else { "No"@ }),
    ] + match o.proxy_config {
        Some(c) => seq![
            ("Domain"@, c.domain),
            ("Upstream"@, "127.0.0.1:"@ + decimal(c.upstream_port as nat)),
        ],
        None => seq![],
    }
}

/// The labelled values of the summary shown before `init` applies anything.
pub fn init_summary_fields(options: &InitOptions) -> (r: Vec<(String, String)>)
    ensures
        pair_views(r@) == summary_fields_spec(options@),
{
    let mut r: Vec<(String, String)> = Vec::new();
    push_pair(&mut r, "Server", options.server.name.clone());
    push_pair(&mut r, "Target", options.server.destination());
    push_pair(&mut r, "User", options.server.user.clone());
    let mut port = String::new();
    push_decimal(&mut port, options.server.port as u64);
    push_pair(&mut r, "Port", port);
    push_pair(&mut r, "SSH key", options.server.ssh_key.clone());
    push_pair(&mut r, "Proxy", options.proxy.label().to_string());
    let docker = if options.install_docker {
        "Yes"
    } else {
        "No"
    };
    push_pair(&mut r, "Docker", docker.to_string());
    let ghost head = pair_views(r@);
    if let Some(proxy_config) = &options.proxy_config {
        push_pair(&mut r, "Domain", proxy_config.domain.clone());
        let mut upstream = "127.0.0.1:".to_string();
        push_decimal(&mut upstream, proxy_config.upstream_port as u64);
        push_pair(&mut r, "Upstream", upstream);
    }
    assert(pair_views(r@) =~= summary_fields_spec(options@));
    r
}

/// A join ends with its last part.
proof fn lemma_join_push(parts: Seq<Seq<char>>, last: Seq<char>, sep: Seq<char>)
    ensures
        join(parts.push(last), sep) == if parts.len() == 0 {
            last
        } else {
            join(parts, sep) + sep + last
        },
{
    let p = parts.push(last);
    assert(p.drop_last() =~= parts);
    if parts.len() == 0 {
        assert(p.len() == 1);
    }
}

/// The block shown before `init` runs is the one that ends the proxy file it
/// writes: the file holds the server's other mappings first, then this one.
pub proof fn law_preview_ends_config(o: InitOptionsView)
    requires
        o.proxy != ProxyKind::NoProxy,
        o.proxy_config is Some,
    ensures
        ({
            let p = kind_proxy(o.proxy)->0;
            let file = proxy_config_spec(with_mapping(o.server, o.proxy_config, p), p);
            &&& file.len() >= preview_spec(o).len()
            &&& file.subrange(file.len() - preview_spec(o).len(), file.len() as int) == preview_spec(o)
        }),
{
    let p = kind_proxy(o.proxy)->0;
    let c = o.proxy_config->0;
    let a = AppView { domain: c.domain, upstream_port: c.upstream_port, proxy: p };
    let s = with_mapping(o.server, o.proxy_config, p);
    assert(s.apps == o.server.apps.push(a));
    assert(s.apps.drop_last() =~= o.server.apps);
    let blocks = app_blocks(o.server.apps, p);
    assert(app_blocks(s.apps, p) == blocks.push(app_preview(a)));
    assert(app_preview(a) == preview_spec(o));
    lemma_join_push(blocks, app_preview(a), "\n"@);
    let file = proxy_config_spec(s, p);
    let pv = preview_spec(o);
    if blocks.len() == 0 {
        assert(file == pv);
        assert(file.subrange(0, file.len() as int) =~= pv);
    } else {
        let front = join(blocks, "\n"@) + "\n"@;
        assert(file == front + pv);
        assert(file.subrange(file.len() - pv.len(), file.len() as int) =~= pv);
    }
}

} // verus!
