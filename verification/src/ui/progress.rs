//! The list of commands that `init` shows before it runs anything.

use vstd::prelude::*;
use vstd::string::*;
use crate::config::ProxyType;
use crate::plan::link_command_spec;
use crate::proxy::{
    config_path, enabled_symlink_path, install_command, reload_command, config_path_spec,
    enabled_symlink_spec, install_command_spec, reload_command_spec,
};
use crate::plan::link_command;
use crate::text::{decimal, push_decimal, string_views};
use crate::ui::prompts::{InitOptions, InitOptionsView, ProxyConfigView, ProxyKind, kind_proxy};

verus! {

broadcast use vstd::string::group_string_axioms;

/// The preview line for writing the proxy file with one mapping.
pub open spec fn write_line_spec(p: ProxyType, c: ProxyConfigView) -> Seq<char> {
    "write "@ + config_path_spec(p) + " for "@ + c.domain + " -> 127.0.0.1:"@ + decimal(
        c.upstream_port as nat,
    )
}

/// The preview of the proxy part: install, write (when there is a mapping),
/// link (where the proxy needs it), reload.
pub open spec fn proxy_plan_spec(o: InitOptionsView, p: ProxyType) -> Seq<Seq<char>> {
    seq![install_command_spec(p)] + match o.proxy_config {
        Some(c) => seq![write_line_spec(p, c)],
        None => seq![],
    } + match enabled_symlink_spec(p) {
        Some(l) => seq![link_command_spec(config_path_spec(p), l)],
        None => seq![],
    } + seq![reload_command_spec(p)]
}

/// The preview of the whole setup.
pub open spec fn planned_spec(o: InitOptionsView) -> Seq<Seq<char>> {
    seq!["sudo apt update"@, "sudo apt install -y curl ufw"@] + (if o.install_docker {
        seq!["sudo apt install -y docker.io"@, "sudo systemctl enable --now docker"@]
    } else {
        seq![]
    }) + match kind_proxy(o.proxy) {
        Some(p) => proxy_plan_spec(o, p),
        None => seq![],
    } + seq!["sudo ufw allow 22"@] + (if o.proxy != ProxyKind::NoProxy {
        seq!["sudo ufw allow 80"@, "sudo ufw allow 443"@]
    } else {
        seq![]
    }) + seq!["sudo ufw --force enable"@]
}

fn push_text(v: &mut Vec<String>, s: &str)
    ensures
        string_views(final(v)@) == string_views(old(v)@).push(s@),
{
    v.push(s.to_string());
    assert(string_views(v@) =~= string_views(old(v)@).push(s@));
}

/// The commands `init` will run, as shown before it runs them.
pub fn planned_commands(options: &InitOptions) -> (r: Vec<String>)
    ensures
        string_views(r@) == planned_spec(options@),
{
    let mut commands: Vec<String> = Vec::new();
    push_text(&mut commands, "sudo apt update");
    push_text(&mut commands, "sudo apt install -y curl ufw");
    let ghost base = string_views(commands@);
    if options.install_docker {
        push_text(&mut commands, "sudo apt install -y docker.io");
        push_text(&mut commands, "sudo systemctl enable --now docker");
    }
    let ghost after_docker = string_views(commands@);
    match options.proxy {
        ProxyKind::Caddy => {
            append_proxy_plan(&mut commands, options, ProxyType::Caddy);
        },
        ProxyKind::Nginx => {
            append_proxy_plan(&mut commands, options, ProxyType::Nginx);
        },
        ProxyKind::NoProxy => {},
    }
    let ghost after_proxy = string_views(commands@);
    push_text(&mut commands, "sudo ufw allow 22");
    if options.proxy != ProxyKind::NoProxy {
        push_text(&mut commands, "sudo ufw allow 80");
        push_text(&mut commands, "sudo ufw allow 443");
    }
    push_text(&mut commands, "sudo ufw --force enable");
    proof {
        let o = options@;
        assert(base =~= seq!["sudo apt update"@, "sudo apt install -y curl ufw"@]);
        assert(after_docker =~= base + (if o.install_docker {
            seq!["sudo apt install -y docker.io"@, "sudo systemctl enable --now docker"@]
        } else {
            seq![]
        }));
        assert(after_proxy =~= after_docker + match kind_proxy(o.proxy) {
            Some(p) => proxy_plan_spec(o, p),
            None => seq![],
        });
        assert(string_views(commands@) =~= planned_spec(o));
    }
    commands
}

/// The preview line for writing the proxy file.
pub fn write_line(proxy: ProxyType, domain: &str, upstream_port: u16) -> (r: String)
    ensures
        r@ == write_line_spec(proxy, ProxyConfigView { domain: domain@, upstream_port }),
{
    let mut r = "write ".to_string();
    r.append(config_path(proxy));
    r.append(" for ");
    r.append(domain);
    r.append(" -> 127.0.0.1:");
    push_decimal(&mut r, upstream_port as u64);
    r
}

/// Appends the preview of the proxy part to `commands`.
fn append_proxy_plan(commands: &mut Vec<String>, options: &InitOptions, proxy_type: ProxyType)
    ensures
        string_views(final(commands)@) == string_views(old(commands)@) + proxy_plan_spec(
            options@,
            proxy_type,
        ),
{
    push_text(commands, install_command(proxy_type));
    match &options.proxy_config {
        Some(cfg) => {
            let line = write_line(proxy_type, cfg.domain.as_str(), cfg.upstream_port);
            push_text(commands, line.as_str());
        },
        None => {},
    }
    match enabled_symlink_path(proxy_type) {
        Some(path) => {
            let line = link_command(config_path(proxy_type), path);
            push_text(commands, line.as_str());
        },
        None => {},
    }
    push_text(commands, reload_command(proxy_type));
    assert(string_views(commands@) =~= string_views(old(commands)@) + proxy_plan_spec(
        options@,
        proxy_type,
    ));
}

} // verus!
