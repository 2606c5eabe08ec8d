//! `init`: setting a fresh server up.

use vstd::prelude::*;
use vstd::string::*;
use crate::config::{App, AppView, ProxyType, ServerView, proxy_label};
use crate::plan::{
    RemoteStep, StepView, step_views, push_run, push_announce, push_proxy_setup, proxy_setup_spec,
    run_commands, writes_to, is_write_to, link_command_spec, lemma_run_commands_add,
};
use crate::proxy::{config_path_spec, enabled_symlink_spec, install_command_spec, reload_command_spec};
use crate::text::{decimal, has_prefix, starts_with, to_chars};
use crate::ui::progress::{planned_spec, proxy_plan_spec, write_line_spec};
use crate::ui::prompts::{InitOptions, InitOptionsView, ProxyConfigView, ProxyKind, kind_proxy};

verus! {

broadcast use vstd::string::group_string_axioms;

/// The server as it is configured by `init`: with the chosen mapping added.
pub open spec fn with_mapping(s: ServerView, c: Option<ProxyConfigView>, p: ProxyType) -> ServerView {
    match c {
        Some(c) => ServerView {
            apps: s.apps.push(AppView { domain: c.domain, upstream_port: c.upstream_port, proxy: p }),
            ..s
        },
        None => s,
    }
}

/// The steps that install Docker, when chosen.
pub open spec fn docker_steps_spec(install: bool) -> Seq<StepView> {
    if install {
        seq![
            StepView::Announce("Installing Docker"@),
            StepView::Run("sudo apt install -y docker.io"@),
            StepView::Run("sudo systemctl enable --now docker"@),
        ]
    } else {
        seq![]
    }
}

/// The steps that install and configure the chosen proxy and open its ports.
pub open spec fn proxy_steps_spec(o: InitOptionsView, proxy: Option<ProxyType>) -> Seq<StepView> {
    match proxy {
        Some(p) => seq![StepView::Announce("Installing "@ + proxy_label(p))] + proxy_setup_spec(
            with_mapping(o.server, o.proxy_config, p),
            p,
        ) + seq![StepView::Run("sudo ufw allow 80"@), StepView::Run("sudo ufw allow 443"@)],
        None => seq![],
    }
}

/// The remote steps of `init`: packages, Docker if chosen, the proxy if
/// chosen (opening ports 80 and 443 for it), then the firewall.
pub open spec fn base_setup_spec(o: InitOptionsView, proxy: Option<ProxyType>) -> Seq<StepView> {
    seq![
        StepView::Announce("Updating packages"@),
        StepView::Run("sudo apt update"@),
        StepView::Announce("Installing base packages"@),
        StepView::Run("sudo apt install -y curl ufw"@),
    ] + docker_steps_spec(o.install_docker) + proxy_steps_spec(o, proxy) + seq![
        StepView::Announce("Configuring firewall"@),
        StepView::Run("sudo ufw allow 22"@),
        StepView::Run("sudo ufw --force enable"@),
    ]
}

fn push_docker_steps(plan: &mut Vec<RemoteStep>, install: bool)
    ensures
        step_views(final(plan)@) == step_views(old(plan)@) + docker_steps_spec(install),
{
    if install {
        push_announce(plan, "Installing Docker");
        push_run(plan, "sudo apt install -y docker.io");
        push_run(plan, "sudo systemctl enable --now docker");
    }
    assert(step_views(plan@) =~= step_views(old(plan)@) + docker_steps_spec(install));
}

fn push_proxy_steps(plan: &mut Vec<RemoteStep>, options: &InitOptions, proxy: Option<ProxyType>)
    ensures
        step_views(final(plan)@) == step_views(old(plan)@) + proxy_steps_spec(options@, proxy),
{
    if let Some(proxy_type) = proxy {
        let mut announce = "Installing ".to_string();
        announce.append(proxy_type.label());
        push_announce(plan, announce.as_str());
        let mut server = options.server.clone();
        if let Some(proxy_config) = &options.proxy_config {
            let app = App {
                domain: proxy_config.domain.clone(),
                upstream_port: proxy_config.upstream_port,
                proxy: proxy_type,
            };
            server.apps.push(app);
            assert(crate::config::app_views(server.apps@) =~= options@.server.apps.push(app@));
        }
        assert(server@ == with_mapping(options@.server, options@.proxy_config, proxy_type));
        push_proxy_setup(plan, &server, proxy_type);
        push_run(plan, "sudo ufw allow 80");
        push_run(plan, "sudo ufw allow 443");
    }
    assert(step_views(plan@) =~= step_views(old(plan)@) + proxy_steps_spec(options@, proxy));
}

/// The remote steps that set the server of `options` up, with `proxy_type`
/// as the proxy to install.
pub fn execute_base_setup(options: &InitOptions, proxy_type: Option<ProxyType>) -> (r: Vec<
    RemoteStep,
>)
    ensures
        step_views(r@) == base_setup_spec(options@, proxy_type),
{
    let mut plan: Vec<RemoteStep> = Vec::new();
    push_announce(&mut plan, "Updating packages");
    push_run(&mut plan, "sudo apt update");
    push_announce(&mut plan, "Installing base packages");
    push_run(&mut plan, "sudo apt install -y curl ufw");
    push_docker_steps(&mut plan, options.install_docker);
    push_proxy_steps(&mut plan, options, proxy_type);
    push_announce(&mut plan, "Configuring firewall");
    push_run(&mut plan, "sudo ufw allow 22");
    push_run(&mut plan, "sudo ufw --force enable");
    assert(step_views(plan@) =~= base_setup_spec(options@, proxy_type));
    plan
}

/// Whether `init` supports the detected distribution: Ubuntu, as
/// `ubuntu <version>`.
pub fn is_supported_distro(distro: &str) -> (r: bool)
    ensures
        r == has_prefix(distro@, "ubuntu "@),
{
    starts_with(&to_chars(distro), &to_chars("ubuntu "))
}

/// The line of the preview that announces the write of the proxy file.
pub open spec fn preview_write(o: InitOptionsView) -> Option<Seq<char>> {
    match (kind_proxy(o.proxy), o.proxy_config) {
        (Some(p), Some(c)) => Some(write_line_spec(p, c)),
        _ => None,
    }
}

/// The commands of the proxy part of the setup.
proof fn lemma_proxy_runs(o: InitOptionsView, p: ProxyType)
    ensures
        run_commands(proxy_steps_spec(o, Some(p))) == seq![install_command_spec(p)] + match enabled_symlink_spec(p) {
            Some(l) => seq![link_command_spec(config_path_spec(p), l)],
            None => seq![],
        } + seq![reload_command_spec(p), "sudo ufw allow 80"@, "sudo ufw allow 443"@],
        writes_to(proxy_steps_spec(o, Some(p)), config_path_spec(p)),
{
    let s = with_mapping(o.server, o.proxy_config, p);
    let announce = seq![StepView::Announce("Installing "@ + proxy_label(p))];
    let first = seq![
        StepView::Run(install_command_spec(p)),
        StepView::WriteFile { path: config_path_spec(p), content: crate::proxy::proxy_config_spec(s, p) },
    ];
    let link = match enabled_symlink_spec(p) {
        Some(l) => seq![StepView::Run(link_command_spec(config_path_spec(p), l))],
        None => seq![],
    };
    let reload = seq![StepView::Run(reload_command_spec(p))];
    let ports = seq![StepView::Run("sudo ufw allow 80"@), StepView::Run("sudo ufw allow 443"@)];
    assert(proxy_setup_spec(s, p) == first + link + reload);
    assert(proxy_steps_spec(o, Some(p)) == announce + (first + link + reload) + ports);
    lemma_run_commands_add(announce, first + link + reload);
    lemma_run_commands_add(first + link, reload);
    lemma_run_commands_add(first, link);
    lemma_run_commands_add(announce + (first + link + reload), ports);
    reveal_with_fuel(run_commands, 3);
    assert(run_commands(announce) =~= seq![]);
    assert(run_commands(first) =~= seq![install_command_spec(p)]);
    assert(run_commands(ports) =~= seq!["sudo ufw allow 80"@, "sudo ufw allow 443"@]);
    assert(run_commands(reload) =~= seq![reload_command_spec(p)]);
    assert(run_commands(link) =~= match enabled_symlink_spec(p) {
        Some(l) => seq![link_command_spec(config_path_spec(p), l)],
        None => seq![],
    });
    let all = proxy_steps_spec(o, Some(p));
    assert(is_write_to(all[2], config_path_spec(p)));
}

/// Membership in a concatenation.
proof fn lemma_contains_add(a: Seq<Seq<char>>, b: Seq<Seq<char>>, c: Seq<char>)
    ensures
        (a + b).contains(c) <==> a.contains(c) || b.contains(c),
{
    if (a + b).contains(c) {
        let i = choose|i: int| 0 <= i < (a + b).len() && (a + b)[i] == c;
        if i < a.len() {
            assert(a[i] == c);
        } else {
            assert(b[i - a.len()] == c);
        }
    }
    if a.contains(c) {
        let i = choose|i: int| 0 <= i < a.len() && a[i] == c;
        assert((a + b)[i] == c);
    }
    if b.contains(c) {
        let i = choose|i: int| 0 <= i < b.len() && b[i] == c;
        assert((a + b)[a.len() + i] == c);
    }
}

/// Membership in a sequence of up to three given elements.
proof fn lemma_contains_small(s: Seq<Seq<char>>, c: Seq<char>)
    requires
        s.len() <= 3,
    ensures
        s.contains(c) <==> (s.len() > 0 && s[0] == c) || (s.len() > 1 && s[1] == c) || (s.len()
            > 2 && s[2] == c),
{
    if s.contains(c) {
        let i = choose|i: int| 0 <= i < s.len() && s[i] == c;
    }
    if s.len() > 0 && s[0] == c {
        assert(s.contains(c));
    }
    if s.len() > 1 && s[1] == c {
        assert(s.contains(c));
    }
    if s.len() > 2 && s[2] == c {
        assert(s.contains(c));
    }
}

/// The commands that the whole setup runs.
proof fn lemma_setup_runs(o: InitOptionsView)
    ensures
        run_commands(base_setup_spec(o, kind_proxy(o.proxy))) == seq![
            "sudo apt update"@,
            "sudo apt install -y curl ufw"@,
        ] + run_commands(docker_steps_spec(o.install_docker)) + run_commands(
            proxy_steps_spec(o, kind_proxy(o.proxy)),
        ) + seq!["sudo ufw allow 22"@, "sudo ufw --force enable"@],
        run_commands(docker_steps_spec(o.install_docker)) == if o.install_docker {
            seq!["sudo apt install -y docker.io"@, "sudo systemctl enable --now docker"@]
        } else {
            seq![]
        },
        kind_proxy(o.proxy) is None ==> run_commands(proxy_steps_spec(o, kind_proxy(o.proxy)))
            == Seq::<Seq<char>>::empty(),
{
    let proxy = kind_proxy(o.proxy);
    let head = seq![
        StepView::Announce("Updating packages"@),
        StepView::Run("sudo apt update"@),
        StepView::Announce("Installing base packages"@),
        StepView::Run("sudo apt install -y curl ufw"@),
    ];
    let docker = docker_steps_spec(o.install_docker);
    let px = proxy_steps_spec(o, proxy);
    let tail = seq![
        StepView::Announce("Configuring firewall"@),
        StepView::Run("sudo ufw allow 22"@),
        StepView::Run("sudo ufw --force enable"@),
    ];
    assert(base_setup_spec(o, proxy) == head + docker + px + tail);
    lemma_run_commands_add(head + docker + px, tail);
    lemma_run_commands_add(head + docker, px);
    lemma_run_commands_add(head, docker);
    reveal_with_fuel(run_commands, 5);
    assert(run_commands(head) =~= seq!["sudo apt update"@, "sudo apt install -y curl ufw"@]);
    assert(run_commands(tail) =~= seq!["sudo ufw allow 22"@, "sudo ufw --force enable"@]);
    assert(run_commands(docker) =~= if o.install_docker {
        seq!["sudo apt install -y docker.io"@, "sudo systemctl enable --now docker"@]
    } else {
        seq![]
    });
    if proxy is None {
        assert(run_commands(px) =~= seq![]);
    }
}

/// The setup writes the proxy file.
proof fn lemma_setup_writes(o: InitOptionsView, p: ProxyType)
    requires
        kind_proxy(o.proxy) == Some(p),
    ensures
        writes_to(base_setup_spec(o, kind_proxy(o.proxy)), config_path_spec(p)),
{
    let head = seq![
        StepView::Announce("Updating packages"@),
        StepView::Run("sudo apt update"@),
        StepView::Announce("Installing base packages"@),
        StepView::Run("sudo apt install -y curl ufw"@),
    ];
    let docker = docker_steps_spec(o.install_docker);
    let px = proxy_steps_spec(o, Some(p));
    let tail = seq![
        StepView::Announce("Configuring firewall"@),
        StepView::Run("sudo ufw allow 22"@),
        StepView::Run("sudo ufw --force enable"@),
    ];
    let all = base_setup_spec(o, Some(p));
    assert(all == head + docker + px + tail);
    lemma_proxy_runs(o, p);
    let i = choose|i: int| 0 <= i < px.len() && is_write_to(#[trigger] px[i], config_path_spec(p));
    assert(all[head.len() + docker.len() + i] == px[i]);
}

/// Every file that `p` writes is at `path`.
spec fn writes_only_to(p: Seq<StepView>, path: Seq<char>) -> bool {
    forall|i: int| 0 <= i < p.len() && (#[trigger] p[i]) is WriteFile ==> p[i]->path == path
}

proof fn lemma_writes_only_add(a: Seq<StepView>, b: Seq<StepView>, path: Seq<char>)
    requires
        writes_only_to(a, path),
        writes_only_to(b, path),
    ensures
        writes_only_to(a + b, path),
{
    assert forall|i: int| 0 <= i < (a + b).len() && (#[trigger] (a + b)[i]) is WriteFile implies (a
        + b)[i]->path == path by {
        if i < a.len() {
            assert((a + b)[i] == a[i]);
        } else {
            assert((a + b)[i] == b[i - a.len()]);
        }
    }
}

/// The only file the setup writes is the chosen proxy's configuration file.
proof fn lemma_setup_write_paths(o: InitOptionsView, i: int)
    requires
        0 <= i < base_setup_spec(o, kind_proxy(o.proxy)).len(),
        base_setup_spec(o, kind_proxy(o.proxy))[i] is WriteFile,
    ensures
        kind_proxy(o.proxy) is Some,
        base_setup_spec(o, kind_proxy(o.proxy))[i]->path == config_path_spec(kind_proxy(o.proxy)->0),
{
    let proxy = kind_proxy(o.proxy);
    let head = seq![
        StepView::Announce("Updating packages"@),
        StepView::Run("sudo apt update"@),
        StepView::Announce("Installing base packages"@),
        StepView::Run("sudo apt install -y curl ufw"@),
    ];
    let docker = docker_steps_spec(o.install_docker);
    let px = proxy_steps_spec(o, proxy);
    let tail = seq![
        StepView::Announce("Configuring firewall"@),
        StepView::Run("sudo ufw allow 22"@),
        StepView::Run("sudo ufw --force enable"@),
    ];
    let all = base_setup_spec(o, proxy);
    assert(all == head + docker + px + tail);
    let path = match proxy {
        Some(p) => config_path_spec(p),
        None => Seq::empty(),
    };
    assert(writes_only_to(head, path));
    assert(writes_only_to(docker, path));
    assert(writes_only_to(tail, path));
    match proxy {
        Some(p) => {
            let s = with_mapping(o.server, o.proxy_config, p);
            let announce = seq![StepView::Announce("Installing "@ + proxy_label(p))];
            let first = seq![
                StepView::Run(install_command_spec(p)),
                StepView::WriteFile {
                    path: config_path_spec(p),
                    content: crate::proxy::proxy_config_spec(s, p),
                },
            ];
            let link = match enabled_symlink_spec(p) {
                Some(l) => seq![StepView::Run(link_command_spec(config_path_spec(p), l))],
                None => seq![],
            };
            let reload = seq![StepView::Run(reload_command_spec(p))];
            let ports = seq![StepView::Run("sudo ufw allow 80"@), StepView::Run("sudo ufw allow 443"@)];
            assert(px == announce + (first + link + reload) + ports);
            assert(writes_only_to(announce, path));
            assert(writes_only_to(first, path));
            assert(writes_only_to(link, path));
            assert(writes_only_to(reload, path));
            assert(writes_only_to(ports, path));
            lemma_writes_only_add(first, link, path);
            lemma_writes_only_add(first + link, reload, path);
            lemma_writes_only_add(announce, first + link + reload, path);
            lemma_writes_only_add(announce + (first + link + reload), ports, path);
            lemma_writes_only_add(head, docker, path);
            lemma_writes_only_add(head + docker, px, path);
            lemma_writes_only_add(head + docker + px, tail, path);
        },
        None => {
            assert(px =~= Seq::<StepView>::empty());
            assert(all =~= head + docker + tail);
            assert forall|j: int| 0 <= j < all.len() implies !((#[trigger] all[j]) is WriteFile) by {
                if j < head.len() {
                    assert(all[j] == head[j]);
                } else if j < head.len() + docker.len() {
                    assert(all[j] == docker[j - head.len()]);
                } else {
                    assert(all[j] == tail[j - head.len() - docker.len()]);
                }
            }
        },
    }
}

/// The dry-run preview names the very file the setup writes: for any file
/// the setup writes at `path`, the preview shows the line
/// `write <path> for <domain> -> 127.0.0.1:<port>` of the chosen mapping.
pub proof fn law_preview_names_written_file(o: InitOptionsView, c: ProxyConfigView, i: int)
    requires
        o.proxy_config == Some(c),
        0 <= i < base_setup_spec(o, kind_proxy(o.proxy)).len(),
        base_setup_spec(o, kind_proxy(o.proxy))[i] is WriteFile,
    ensures
        planned_spec(o).contains(
            "write "@ + base_setup_spec(o, kind_proxy(o.proxy))[i]->path + " for "@ + c.domain
                + " -> 127.0.0.1:"@ + decimal(c.upstream_port as nat),
        ),
{
    lemma_setup_write_paths(o, i);
    let p = kind_proxy(o.proxy)->0;
    law_preview_lists_setup(o, write_line_spec(p, c));
    assert(preview_write(o) == Some(write_line_spec(p, c)));
}

/// The preview that `init` shows before it runs lists what it runs: each
/// line of the preview is a command of the setup or the line that announces
/// the write of the proxy file, each command of the setup is in the preview,
/// and the setup writes the proxy file exactly when the preview says so.
/// (The preview opens the firewall for SSH before the web ports; the setup
/// opens the web ports with the proxy, so the order differs.)
pub proof fn law_preview_lists_setup(o: InitOptionsView, c: Seq<char>)
    requires
        o.proxy != ProxyKind::NoProxy ==> o.proxy_config is Some,
    ensures
        planned_spec(o).contains(c) <==> (run_commands(
            base_setup_spec(o, kind_proxy(o.proxy)),
        ).contains(c) || preview_write(o) == Some(c)),
        preview_write(o) is Some <==> (kind_proxy(o.proxy) is Some && writes_to(
            base_setup_spec(o, kind_proxy(o.proxy)),
            config_path_spec(kind_proxy(o.proxy)->0),
        )),
{
    let proxy = kind_proxy(o.proxy);
    lemma_setup_runs(o);
    let h = seq!["sudo apt update"@, "sudo apt install -y curl ufw"@];
    let d = run_commands(docker_steps_spec(o.install_docker));
    let pr = run_commands(proxy_steps_spec(o, proxy));
    let t = seq!["sudo ufw allow 22"@, "sudo ufw --force enable"@];
    let runs = h + d + pr + t;
    let pp = match proxy {
        Some(p) => proxy_plan_spec(o, p),
        None => seq![],
    };
    let w = if o.proxy != ProxyKind::NoProxy {
        seq!["sudo ufw allow 80"@, "sudo ufw allow 443"@]
    } else {
        seq![]
    };
    let planned = h + d + pp + seq!["sudo ufw allow 22"@] + w + seq!["sudo ufw --force enable"@];
    assert(planned_spec(o) == planned);
    lemma_contains_add(h + d + pp + seq!["sudo ufw allow 22"@] + w, seq!["sudo ufw --force enable"@], c);
    lemma_contains_add(h + d + pp + seq!["sudo ufw allow 22"@], w, c);
    lemma_contains_add(h + d + pp, seq!["sudo ufw allow 22"@], c);
    lemma_contains_add(h + d, pp, c);
    lemma_contains_add(h + d + pr, t, c);
    lemma_contains_add(h + d, pr, c);
    lemma_contains_add(h, d, c);
    lemma_contains_small(seq!["sudo ufw --force enable"@], c);
    lemma_contains_small(seq!["sudo ufw allow 22"@], c);
    lemma_contains_small(t, c);
    lemma_contains_small(w, c);
    match proxy {
        Some(p) => {
            lemma_proxy_runs(o, p);
            lemma_setup_writes(o, p);
            let cfg = o.proxy_config->0;
            let link = match enabled_symlink_spec(p) {
                Some(l) => seq![link_command_spec(config_path_spec(p), l)],
                None => seq![],
            };
            let inst = seq![install_command_spec(p)];
            let wl = seq![write_line_spec(p, cfg)];
            let tail = seq![reload_command_spec(p), "sudo ufw allow 80"@, "sudo ufw allow 443"@];
            assert(pr == inst + link + tail);
            assert(pp == inst + wl + link + seq![reload_command_spec(p)]);
            lemma_contains_add(inst + link, tail, c);
            lemma_contains_add(inst, link, c);
            lemma_contains_add(inst + wl + link, seq![reload_command_spec(p)], c);
            lemma_contains_add(inst + wl, link, c);
            lemma_contains_add(inst, wl, c);
            lemma_contains_small(inst, c);
            lemma_contains_small(wl, c);
            lemma_contains_small(tail, c);
            lemma_contains_small(seq![reload_command_spec(p)], c);
        },
        None => {
            assert(pp =~= seq![]);
            lemma_contains_small(pp, c);
            lemma_contains_small(pr, c);
        },
    }
}

} // verus!
