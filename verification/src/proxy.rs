//! Reverse-proxy configuration: the files that Caddy and Nginx read, where
//! they live, and the commands that install and reload each proxy.

use vstd::prelude::*;
use vstd::string::*;
use crate::config::{App, AppView, ProxyType, Server, ServerView, app_views};
use crate::text::{decimal, join, push_decimal, join_strings, string_views};

verus! {

broadcast use vstd::string::group_string_axioms;

/// The Caddy site block for one mapping.
pub open spec fn caddy_block(domain: Seq<char>, port: u16) -> Seq<char> {
    domain + " {\n    reverse_proxy 127.0.0.1:"@ + decimal(port as nat) + "\n}\n"@
}

/// The Nginx server block for one mapping.
pub open spec fn nginx_block(domain: Seq<char>, port: u16) -> Seq<char> {
    "server {\n    listen 80;\n    server_name "@ + domain
        + ";\n\n    location / {\n        proxy_pass http://127.0.0.1:"@ + decimal(port as nat)
        + ";\n        proxy_set_header Host $host;\n        proxy_set_header X-Real-IP $remote_addr;\n        proxy_set_header X-Forwarded-For $proxy_add_x_forwarded_for;\n        proxy_set_header X-Forwarded-Proto $scheme;\n    }\n}\n"@
}

/// The configuration block for one app, in the syntax of its proxy.
pub open spec fn app_preview(app: AppView) -> Seq<char> {
    match app.proxy {
        ProxyType::Caddy => caddy_block(app.domain, app.upstream_port),
        ProxyType::Nginx => nginx_block(app.domain, app.upstream_port),
    }
}

/// The blocks of the apps that use proxy `p`, in order.
pub open spec fn app_blocks(apps: Seq<AppView>, p: ProxyType) -> Seq<Seq<char>>
    decreases apps.len(),
{
    if apps.len() == 0 {
        seq![]
    } else {
        app_blocks(apps.drop_last(), p) + if apps.last().proxy == p {
            seq![app_preview(apps.last())]
        } else {
            seq![]
        }
    }
}

/// What Caddy serves when the server has no apps.
pub open spec fn caddy_placeholder() -> Seq<char> {
    ":80 {\n    respond \"ez-vps is ready\" 200\n}\n"@
}

/// What Nginx serves when no app uses it.
pub open spec fn nginx_placeholder() -> Seq<char> {
    "server {\n    listen 80 default_server;\n    server_name _;\n\n    return 200 'ez-vps is ready';\n}\n"@
}

/// The Caddyfile for a server: the Caddy apps' blocks joined by blank lines,
/// or a placeholder site when the server has no apps at all.
pub open spec fn caddy_config(s: ServerView) -> Seq<char> {
    if s.apps.len() == 0 {
        caddy_placeholder()
    } else {
        join(app_blocks(s.apps, ProxyType::Caddy), "\n"@)
    }
}

/// The Nginx site file for a server: the Nginx apps' blocks joined by blank
/// lines, or a placeholder server when no app uses Nginx.
pub open spec fn nginx_config(s: ServerView) -> Seq<char> {
    if app_blocks(s.apps, ProxyType::Nginx).len() == 0 {
        nginx_placeholder()
    } else {
        join(app_blocks(s.apps, ProxyType::Nginx), "\n"@)
    }
}

/// The configuration file of proxy `p` for server `s`.
pub open spec fn proxy_config_spec(s: ServerView, p: ProxyType) -> Seq<char> {
    match p {
        ProxyType::Caddy => caddy_config(s),
        ProxyType::Nginx => nginx_config(s),
    }
}

/// Where each proxy's configuration file lives.
pub open spec fn config_path_spec(p: ProxyType) -> Seq<char> {
    match p {
        ProxyType::Caddy => "/etc/caddy/Caddyfile"@,
        ProxyType::Nginx => "/etc/nginx/sites-available/ez-vps.conf"@,
    }
}

/// The symlink that enables the site, for proxies that need one.
pub open spec fn enabled_symlink_spec(p: ProxyType) -> Option<Seq<char>> {
    match p {
        ProxyType::Caddy => None,
        ProxyType::Nginx => Some("/etc/nginx/sites-enabled/ez-vps.conf"@),
    }
}

/// The command that reloads a proxy after its file changed.
pub open spec fn reload_command_spec(p: ProxyType) -> Seq<char> {
    match p {
        ProxyType::Caddy => "sudo systemctl reload caddy"@,
        ProxyType::Nginx => "sudo nginx -t && sudo systemctl reload nginx"@,
    }
}

/// The command that installs a proxy.
pub open spec fn install_command_spec(p: ProxyType) -> Seq<char> {
    match p {
        ProxyType::Caddy => "sudo apt install -y caddy"@,
        ProxyType::Nginx => "sudo apt install -y nginx"@,
    }
}

/// The configuration file of `proxy` for `server`.
pub fn render_proxy_config(server: &Server, proxy: ProxyType) -> (r: String)
    ensures
        r@ == proxy_config_spec(server@, proxy),
{
    match proxy {
        ProxyType::Caddy => render_caddy_config(server),
        ProxyType::Nginx => render_nginx_config(server),
    }
}

/// Path of the configuration file of `proxy`.
pub fn config_path(proxy: ProxyType) -> (r: &'static str)
    ensures
        r@ == config_path_spec(proxy),
{
    match proxy {
        ProxyType::Caddy => "/etc/caddy/Caddyfile",
        ProxyType::Nginx => "/etc/nginx/sites-available/ez-vps.conf",
    }
}

/// Path of the symlink that enables the site, where the proxy needs one.
pub fn enabled_symlink_path(proxy: ProxyType) -> (r: Option<&'static str>)
    ensures
        match r {
            Some(p) => enabled_symlink_spec(proxy) == Some(p@),
            None => enabled_symlink_spec(proxy) is None,
        },
{
    match proxy {
        ProxyType::Caddy => None,
        ProxyType::Nginx => Some("/etc/nginx/sites-enabled/ez-vps.conf"),
    }
}

/// The command that reloads `proxy`.
pub fn reload_command(proxy: ProxyType) -> (r: &'static str)
    ensures
        r@ == reload_command_spec(proxy),
{
    match proxy {
        ProxyType::Caddy => "sudo systemctl reload caddy",
        ProxyType::Nginx => "sudo nginx -t && sudo systemctl reload nginx",
    }
}

/// The command that installs `proxy`.
pub fn install_command(proxy: ProxyType) -> (r: &'static str)
    ensures
        r@ == install_command_spec(proxy),
{
    match proxy {
        ProxyType::Caddy => "sudo apt install -y caddy",
        ProxyType::Nginx => "sudo apt install -y nginx",
    }
}

/// The Caddy block for `domain` forwarding to `port`.
pub fn caddy_block_text(domain: &str, port: u16) -> (r: String)
    ensures
        r@ == caddy_block(domain@, port),
{
    let mut r = String::new();
    r.append(domain);
    r.append(" {\n    reverse_proxy 127.0.0.1:");
    push_decimal(&mut r, port as u64);
    r.append("\n}\n");
    r
}

/// The Nginx block for `domain` forwarding to `port`.
pub fn nginx_block_text(domain: &str, port: u16) -> (r: String)
    ensures
        r@ == nginx_block(domain@, port),
{
    let mut r = "server {\n    listen 80;\n    server_name ".to_string();
    r.append(domain);
    r.append(";\n\n    location / {\n        proxy_pass http://127.0.0.1:");
    push_decimal(&mut r, port as u64);
    r.append(
        ";\n        proxy_set_header Host $host;\n        proxy_set_header X-Real-IP $remote_addr;\n        proxy_set_header X-Forwarded-For $proxy_add_x_forwarded_for;\n        proxy_set_header X-Forwarded-Proto $scheme;\n    }\n}\n",
    );
    r
}

/// The configuration block for one app, in the syntax of its proxy.
pub fn render_app_preview(app: &App) -> (r: String)
    ensures
        r@ == app_preview(app@),
{
    match app.proxy {
        ProxyType::Caddy => caddy_block_text(app.domain.as_str(), app.upstream_port),
        ProxyType::Nginx => nginx_block_text(app.domain.as_str(), app.upstream_port),
    }
}

/// The blocks of the apps that use `proxy`, in order.
fn collect_blocks(apps: &Vec<App>, proxy: ProxyType) -> (r: Vec<String>)
    ensures
        string_views(r@) == app_blocks(app_views(apps@), proxy),
{
    let mut r: Vec<String> = Vec::new();
    let mut i: usize = 0;
    while i < apps.len()
        invariant
            i <= apps.len(),
            string_views(r@) == app_blocks(app_views(apps@).take(i as int), proxy),
        decreases apps.len() - i,
    {
        let ghost prefix = app_views(apps@).take(i + 1);
        assert(prefix.drop_last() =~= app_views(apps@).take(i as int));
        assert(prefix.last() == apps@[i as int]@);
        if apps[i].proxy == proxy {
            let block = render_app_preview(&apps[i]);
            assert(string_views(r@.push(block)) =~= string_views(r@).push(block@));
            r.push(block);
        }
        assert(string_views(r@) =~= app_blocks(prefix, proxy));
        i += 1;
    }
    assert(app_views(apps@).take(apps.len() as int) =~= app_views(apps@));
    r
}

fn render_caddy_config(server: &Server) -> (r: String)
    ensures
        r@ == caddy_config(server@),
{
    if server.apps.len() == 0 {
        return ":80 {\n    respond \"ez-vps is ready\" 200\n}\n".to_string();
    }
    let blocks = collect_blocks(&server.apps, ProxyType::Caddy);
    join_strings(&blocks, "\n")
}

fn render_nginx_config(server: &Server) -> (r: String)
    ensures
        r@ == nginx_config(server@),
{
    let blocks = collect_blocks(&server.apps, ProxyType::Nginx);
    if blocks.len() == 0 {
        return "server {\n    listen 80 default_server;\n    server_name _;\n\n    return 200 'ez-vps is ready';\n}\n".to_string();
    }
    join_strings(&blocks, "\n")
}

} // verus!
