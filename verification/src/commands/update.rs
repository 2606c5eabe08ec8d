//! `update`: upgrading a server's packages and re-applying its proxy.

use vstd::prelude::*;
use vstd::string::*;
use crate::config::{ProxyType, Server, ServerView, effective_proxy_spec, proxy_label};
use crate::plan::{
    RemoteStep, StepView, step_views, push_run, push_proxy_setup, proxy_setup_spec, run_commands,
    lemma_run_commands_has,
};
use crate::proxy::{config_path_spec, install_command_spec, proxy_config_spec, reload_command_spec};
use crate::text::{decimal, push_decimal, pair_views, push_pair};

verus! {

broadcast use vstd::string::group_string_axioms;

/// The proxy `update` re-applies: the one the server runs.
pub fn server_proxy(server: &Server) -> (r: Option<ProxyType>)
    ensures
        r == effective_proxy_spec(server@),
{
    server.effective_proxy()
}

/// The remote steps of `update`: refresh and upgrade packages, reinstall the
/// base tools, Docker when the server manages it, and the server's proxy
/// with its mappings.
pub open spec fn update_spec(s: ServerView) -> Seq<StepView> {
    seq![
        StepView::Run("sudo apt update"@),
        StepView::Run("sudo apt upgrade -y"@),
        StepView::Run("sudo apt install -y curl ufw"@),
    ] + (if s.managed_docker {
        seq![
            StepView::Run("sudo apt install -y docker.io"@),
            StepView::Run("sudo systemctl enable --now docker"@),
        ]
    } else {
        seq![]
    }) + match effective_proxy_spec(s) {
        Some(p) => proxy_setup_spec(s, p),
        None => seq![],
    }
}

/// The remote steps that update `server`.
pub fn apply_update(server: &Server) -> (r: Vec<RemoteStep>)
    ensures
        step_views(r@) == update_spec(server@),
{
    let mut plan: Vec<RemoteStep> = Vec::new();
    push_run(&mut plan, "sudo apt update");
    push_run(&mut plan, "sudo apt upgrade -y");
    push_run(&mut plan, "sudo apt install -y curl ufw");
    let ghost head = step_views(plan@);
    if server.managed_docker {
        push_run(&mut plan, "sudo apt install -y docker.io");
        push_run(&mut plan, "sudo systemctl enable --now docker");
    }
    let ghost with_docker = step_views(plan@);
    if let Some(proxy_type) = server_proxy(server) {
        push_proxy_setup(&mut plan, server, proxy_type);
    }
    proof {
        assert(with_docker =~= head + (if server@.managed_docker {
            seq![
                StepView::Run("sudo apt install -y docker.io"@),
                StepView::Run("sudo systemctl enable --now docker"@),
            ]
        } else {
            seq![]
        }));
        assert(step_views(plan@) =~= update_spec(server@));
    }
    plan
}

/// `update` re-applies the proxy the server runs, whether or not it manages
/// Docker: it installs the proxy, writes its configuration file with the
/// server's mappings, and reloads it.
pub proof fn law_update_reapplies_proxy(s: ServerView, p: ProxyType)
    requires
        effective_proxy_spec(s) == Some(p),
    ensures
        run_commands(update_spec(s)).contains(install_command_spec(p)),
        update_spec(s).contains(
            StepView::WriteFile { path: config_path_spec(p), content: proxy_config_spec(s, p) },
        ),
        run_commands(update_spec(s)).contains(reload_command_spec(p)),
{
    let u = update_spec(s);
    let setup = proxy_setup_spec(s, p);
    let k = u.len() - setup.len();
    assert(u[k] == setup[0]);
    assert(u[k + 1] == setup[1]);
    assert(u[u.len() - 1] == setup[setup.len() - 1]);
    lemma_run_commands_has(u, k, install_command_spec(p));
    lemma_run_commands_has(u, u.len() - 1, reload_command_spec(p));
}

/// The label of an optional proxy, `none` when there is none.
pub open spec fn opt_proxy_label(p: Option<ProxyType>) -> Seq<char> {
    match p {
        Some(p) => proxy_label(p),
        None => "none"@,
    }
}

/// The fields printed after `update`.
pub fn update_summary(server: &Server) -> (r: Vec<(String, String)>)
    ensures
        pair_views(r@) == seq![
            ("server"@, server@.name),
            ("host"@, server@.host),
            ("apps"@, decimal(server@.apps.len())),
            ("proxy"@, opt_proxy_label(effective_proxy_spec(server@))),
        ],
{
    let mut r: Vec<(String, String)> = Vec::new();
    push_pair(&mut r, "server", server.name.clone());
    push_pair(&mut r, "host", server.host.clone());
    let mut count = String::new();
    push_decimal(&mut count, server.apps.len() as u64);
    push_pair(&mut r, "apps", count);
    let label = match server_proxy(server) {
        Some(p) => p.label(),
        None => "none",
    };
    push_pair(&mut r, "proxy", label.to_string());
    assert(pair_views(r@) =~= seq![
        ("server"@, server@.name),
        ("host"@, server@.host),
        ("apps"@, decimal(server@.apps.len())),
        ("proxy"@, opt_proxy_label(effective_proxy_spec(server@))),
    ]);
    r
}

} // verus!
