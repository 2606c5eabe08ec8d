//! `uninstall`: removing what the tool set up on a server.

use vstd::prelude::*;
use vstd::string::*;
use crate::config::{
    Config, ProxyType, Server, ServerView, effective_proxy_spec, lookup_server, server_position,
};
use crate::error::{Error, ErrorView};
use crate::plan::{RemoteStep, StepView, step_views, push_run, run_commands, lemma_run_commands_has};
use crate::proxy::{
    config_path, enabled_symlink_path, config_path_spec, enabled_symlink_spec, install_command_spec,
};
use crate::text::{decimal, push_decimal, pair_views, push_pair};

verus! {

broadcast use vstd::string::group_string_axioms;

/// The proxies `uninstall` removes: the one the server runs, if any.
pub open spec fn proxies_to_remove_spec(s: ServerView) -> Seq<ProxyType> {
    match effective_proxy_spec(s) {
        Some(p) => seq![p],
        None => seq![],
    }
}

/// The proxies that `uninstall` removes from `server`.
pub fn proxy_types_to_remove(server: &Server) -> (r: Vec<ProxyType>)
    ensures
        r@ == proxies_to_remove_spec(server@),
{
    let mut r: Vec<ProxyType> = Vec::new();
    if let Some(p) = server.effective_proxy() {
        r.push(p);
    }
    assert(r@ =~= proxies_to_remove_spec(server@));
    r
}

/// The command that stops and removes a proxy's package.
pub open spec fn remove_proxy_command_spec(p: ProxyType) -> Seq<char> {
    match p {
        ProxyType::Caddy => "sudo systemctl disable --now caddy || true && sudo apt remove -y caddy || true"@,
        ProxyType::Nginx => "sudo systemctl disable --now nginx || true && sudo apt remove -y nginx || true"@,
    }
}

/// The steps that remove one proxy: its site link, its file, its package.
pub open spec fn remove_proxy_steps(p: ProxyType) -> Seq<StepView> {
    (match enabled_symlink_spec(p) {
        Some(l) => seq![StepView::Run("sudo rm -f "@ + l)],
        None => seq![],
    }) + seq![
        StepView::Run("sudo rm -f "@ + config_path_spec(p)),
        StepView::Run(remove_proxy_command_spec(p)),
    ]
}

/// The remote steps of `uninstall`: remove the proxy the server runs, then
/// Docker when the server manages it.
pub open spec fn uninstall_spec(s: ServerView) -> Seq<StepView> {
    (match effective_proxy_spec(s) {
        Some(p) => remove_proxy_steps(p),
        None => seq![],
    }) + if s.managed_docker {
        seq![
            StepView::Run(
                "sudo systemctl disable --now docker || true && sudo apt remove -y docker.io || true"@,
            ),
        ]
    } else {
        seq![]
    }
}

fn remove_command(path: &str) -> (r: String)
    ensures
        r@ == "sudo rm -f "@ + path@,
{
    let mut r = "sudo rm -f ".to_string();
    r.append(path);
    r
}

/// The remote steps that remove what the tool set up on `server`.
pub fn perform_uninstall(server: &Server) -> (r: Vec<RemoteStep>)
    ensures
        step_views(r@) == uninstall_spec(server@),
{
    let mut plan: Vec<RemoteStep> = Vec::new();
    let proxies = proxy_types_to_remove(server);
    let mut i: usize = 0;
    while i < proxies.len()
        invariant
            i <= proxies.len(),
            proxies@ == proxies_to_remove_spec(server@),
            step_views(plan@) == if i == 0 {
                Seq::<StepView>::empty()
            } else {
                remove_proxy_steps(proxies@[0])
            },
        decreases proxies.len() - i,
    {
        let proxy_type = proxies[i];
        if let Some(symlink) = enabled_symlink_path(proxy_type) {
            let cmd = remove_command(symlink);
            push_run(&mut plan, cmd.as_str());
        }
        let cmd = remove_command(config_path(proxy_type));
        push_run(&mut plan, cmd.as_str());
        let reload_command = match proxy_type {
            ProxyType::Caddy => {
                "sudo systemctl disable --now caddy || true && sudo apt remove -y caddy || true"
            },
            ProxyType::Nginx => {
                "sudo systemctl disable --now nginx || true && sudo apt remove -y nginx || true"
            },
        };
        push_run(&mut plan, reload_command);
        assert(step_views(plan@) =~= remove_proxy_steps(proxy_type));
        i += 1;
    }
    let ghost after_proxies = step_views(plan@);
    assert(after_proxies =~= match effective_proxy_spec(server@) {
        Some(p) => remove_proxy_steps(p),
        None => seq![],
    });
    if server.managed_docker {
        push_run(
            &mut plan,
            "sudo systemctl disable --now docker || true && sudo apt remove -y docker.io || true",
        );
    }
    assert(step_views(plan@) =~= uninstall_spec(server@));
    plan
}

/// The question asked before uninstalling.
pub fn uninstall_prompt(server: &Server) -> (r: String)
    ensures
        r@ == "Uninstall ez-vps-managed services from '"@ + server@.name + "' ("@ + server@.host
            + ")?"@,
{
    let mut r = "Uninstall ez-vps-managed services from '".to_string();
    r.append(server.name.as_str());
    r.append("' (");
    r.append(server.host.as_str());
    r.append(")?");
    r
}

/// The fields printed after `uninstall`.
pub fn uninstall_summary(server: &Server) -> (r: Vec<(String, String)>)
    ensures
        pair_views(r@) == seq![
            ("server"@, server@.name),
            ("host"@, server@.host),
            ("apps removed"@, decimal(server@.apps.len())),
            ("docker"@, "removed if present"@),
            ("proxy"@, "removed if managed by ez-vps"@),
        ],
{
    let mut r: Vec<(String, String)> = Vec::new();
    push_pair(&mut r, "server", server.name.clone());
    push_pair(&mut r, "host", server.host.clone());
    let mut count = String::new();
    push_decimal(&mut count, server.apps.len() as u64);
    push_pair(&mut r, "apps removed", count);
    push_pair(&mut r, "docker", "removed if present".to_string());
    push_pair(&mut r, "proxy", "removed if managed by ez-vps".to_string());
    assert(pair_views(r@) =~= seq![
        ("server"@, server@.name),
        ("host"@, server@.host),
        ("apps removed"@, decimal(server@.apps.len())),
        ("docker"@, "removed if present"@),
        ("proxy"@, "removed if managed by ez-vps"@),
    ]);
    r
}

/// A server entry after an uninstall: no apps, no managed Docker or proxy.
pub open spec fn cleared_spec(s: ServerView) -> ServerView {
    ServerView { apps: seq![], managed_docker: false, managed_proxy: None, ..s }
}

/// Records in the configuration that the server named `server_name` no
/// longer runs anything the tool set up.
pub fn clear_managed_state(config: &mut Config, server_name: &str) -> (r: Result<(), Error>)
    ensures
        match lookup_server(old(config)@, server_name@) {
            None => r matches Err(e) && e@ == (ErrorView::ServerNotFound { name: server_name@ })
                && final(config)@ == old(config)@,
            Some(s) => r is Ok && final(config)@ == old(config)@.update(
                server_position(old(config)@, server_name@) as int,
                cleared_spec(s),
            ),
        },
{
    let server_entry = config.find_server_mut(server_name)?;
    server_entry.apps.clear();
    server_entry.managed_docker = false;
    server_entry.managed_proxy = None;
    assert(crate::config::app_views(server_entry.apps@) =~= Seq::<crate::config::AppView>::empty());
    Ok(())
}

/// The package that `install_command_spec(p)` installs.
pub open spec fn installed_package(p: ProxyType) -> Seq<char> {
    install_command_spec(p).skip("sudo apt install -y "@.len() as int)
}

/// `uninstall` undoes what installing a proxy did: for each proxy it
/// removes, it deletes that proxy's configuration file, and it stops,
/// disables and removes the very package the install command installs.
pub proof fn law_uninstall_removes_installed_proxy(s: ServerView, p: ProxyType)
    requires
        proxies_to_remove_spec(s).contains(p),
    ensures
        install_command_spec(p) == "sudo apt install -y "@ + installed_package(p),
        run_commands(uninstall_spec(s)).contains("sudo rm -f "@ + config_path_spec(p)),
        run_commands(uninstall_spec(s)).contains(
            "sudo systemctl disable --now "@ + installed_package(p) + " || true && sudo apt remove -y "@
                + installed_package(p) + " || true"@,
        ),
{
    reveal_strlit("sudo apt install -y ");
    reveal_strlit("sudo apt install -y caddy");
    reveal_strlit("sudo apt install -y nginx");
    reveal_strlit("sudo systemctl disable --now ");
    reveal_strlit(" || true && sudo apt remove -y ");
    reveal_strlit(" || true");
    reveal_strlit("sudo systemctl disable --now caddy || true && sudo apt remove -y caddy || true");
    reveal_strlit("sudo systemctl disable --now nginx || true && sudo apt remove -y nginx || true");
    assert(proxies_to_remove_spec(s)[0] == p);
    assert(effective_proxy_spec(s) == Some(p));
    let name = installed_package(p);
    assert(install_command_spec(p) =~= "sudo apt install -y "@ + name);
    assert(remove_proxy_command_spec(p) =~= "sudo systemctl disable --now "@ + name
        + " || true && sudo apt remove -y "@ + name + " || true"@);
    let steps = remove_proxy_steps(p);
    let u = uninstall_spec(s);
    assert(u[steps.len() - 2] == steps[steps.len() - 2]);
    assert(u[steps.len() - 1] == steps[steps.len() - 1]);
    lemma_run_commands_has(u, steps.len() - 2, "sudo rm -f "@ + config_path_spec(p));
    lemma_run_commands_has(u, steps.len() - 1, remove_proxy_command_spec(p));
}

/// Once an uninstall is recorded, another uninstall has nothing to remove.
pub proof fn law_uninstall_recorded_is_final(s: ServerView)
    ensures
        uninstall_spec(cleared_spec(s)) == Seq::<StepView>::empty(),
        proxies_to_remove_spec(cleared_spec(s)) == Seq::<ProxyType>::empty(),
{
    assert(uninstall_spec(cleared_spec(s)) =~= Seq::<StepView>::empty());
}

} // verus!
