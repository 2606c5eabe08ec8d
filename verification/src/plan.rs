//! Remote work as data: the steps a command takes on a server, in order.
//! The caller performs them one after another and stops at the first
//! failure.

use vstd::prelude::*;
use vstd::string::*;
use crate::config::{ProxyType, Server, ServerView};
use crate::proxy::{
    config_path, enabled_symlink_path, install_command, reload_command, render_proxy_config,
    config_path_spec, enabled_symlink_spec, install_command_spec, reload_command_spec,
    proxy_config_spec,
};

verus! {

broadcast use vstd::string::group_string_axioms;

/// One step of remote work.
#[derive(Debug, PartialEq, Eq)]
pub enum RemoteStep {
    /// Tell the user what comes next.
    Announce(String),
    /// Run a shell command on the server.
    Run(String),
    /// Write a file on the server.
    WriteFile { path: String, content: String },
}

/// The mathematical value of a [`RemoteStep`].
pub enum StepView {
    Announce(Seq<char>),
    Run(Seq<char>),
    WriteFile { path: Seq<char>, content: Seq<char> },
}

impl View for RemoteStep {
    type V = StepView;

    open spec fn view(&self) -> StepView {
        match self {
            RemoteStep::Announce(m) => StepView::Announce(m@),
            RemoteStep::Run(c) => StepView::Run(c@),
            RemoteStep::WriteFile { path, content } => StepView::WriteFile {
                path: path@,
                content: content@,
            },
        }
    }
}

/// The views of a list of steps.
pub open spec fn step_views(v: Seq<RemoteStep>) -> Seq<StepView> {
    v.map_values(|s: RemoteStep| s@)
}

/// The commands that a plan runs, in order.
pub open spec fn run_commands(p: Seq<StepView>) -> Seq<Seq<char>>
    decreases p.len(),
{
    if p.len() == 0 {
        seq![]
    } else {
        run_commands(p.drop_last()) + match p.last() {
            StepView::Run(c) => seq![c],
            _ => seq![],
        }
    }
}

/// The commands of two plans run one after the other.
pub proof fn lemma_run_commands_add(a: Seq<StepView>, b: Seq<StepView>)
    ensures
        run_commands(a + b) == run_commands(a) + run_commands(b),
    decreases b.len(),
{
    if b.len() == 0 {
        assert(a + b =~= a);
        assert(run_commands(a) + run_commands(b) =~= run_commands(a));
    } else {
        assert((a + b).drop_last() =~= a + b.drop_last());
        assert((a + b).last() == b.last());
        lemma_run_commands_add(a, b.drop_last());
        assert(run_commands(a + b) =~= run_commands(a) + run_commands(b));
    }
}

/// A command that a plan runs at some step is among the commands it runs.
pub proof fn lemma_run_commands_has(p: Seq<StepView>, i: int, c: Seq<char>)
    requires
        0 <= i < p.len(),
        p[i] == StepView::Run(c),
    ensures
        run_commands(p).contains(c),
    decreases p.len(),
{
    let r = run_commands(p);
    if i == p.len() - 1 {
        assert(r[r.len() - 1] == c);
    } else {
        let d = p.drop_last();
        assert(d[i] == p[i]);
        lemma_run_commands_has(d, i, c);
        let k = choose|k: int| 0 <= k < run_commands(d).len() && run_commands(d)[k] == c;
        assert(r[k] == c);
    }
}

/// Whether a step writes a file at `path`.
pub open spec fn is_write_to(s: StepView, path: Seq<char>) -> bool {
    match s {
        StepView::WriteFile { path: q, .. } => q == path,
        _ => false,
    }
}

/// Whether a plan writes a file at `path`.
pub open spec fn writes_to(p: Seq<StepView>, path: Seq<char>) -> bool {
    exists|i: int| 0 <= i < p.len() && is_write_to(#[trigger] p[i], path)
}

/// `sudo ln -sf <target> <link>`.
pub open spec fn link_command_spec(target: Seq<char>, link: Seq<char>) -> Seq<char> {
    "sudo ln -sf "@ + target + " "@ + link
}

/// Installing a proxy and giving it the server's configuration: install it,
/// write its file, enable the site where the proxy needs a link, reload it.
pub open spec fn proxy_setup_spec(s: ServerView, p: ProxyType) -> Seq<StepView> {
    seq![
        StepView::Run(install_command_spec(p)),
        StepView::WriteFile { path: config_path_spec(p), content: proxy_config_spec(s, p) },
    ] + match enabled_symlink_spec(p) {
        Some(link) => seq![StepView::Run(link_command_spec(config_path_spec(p), link))],
        None => seq![],
    } + seq![StepView::Run(reload_command_spec(p))]
}

/// Appends a step to a plan.
pub fn push_step(plan: &mut Vec<RemoteStep>, step: RemoteStep)
    ensures
        step_views(final(plan)@) == step_views(old(plan)@).push(step@),
{
    plan.push(step);
    assert(step_views(plan@) =~= step_views(old(plan)@).push(step@));
}

/// Appends a command to a plan.
pub fn push_run(plan: &mut Vec<RemoteStep>, command: &str)
    ensures
        step_views(final(plan)@) == step_views(old(plan)@).push(StepView::Run(command@)),
{
    push_step(plan, RemoteStep::Run(command.to_string()));
}

/// Appends an announcement to a plan.
pub fn push_announce(plan: &mut Vec<RemoteStep>, message: &str)
    ensures
        step_views(final(plan)@) == step_views(old(plan)@).push(StepView::Announce(message@)),
{
    push_step(plan, RemoteStep::Announce(message.to_string()));
}

/// The command that links the proxy's site file into place.
pub fn link_command(target: &str, link: &str) -> (r: String)
    ensures
        r@ == link_command_spec(target@, link@),
{
    let mut r = "sudo ln -sf ".to_string();
    r.append(target);
    r.append(" ");
    r.append(link);
    r
}

/// Appends the steps that install `proxy` and configure it for `server`.
pub fn push_proxy_setup(plan: &mut Vec<RemoteStep>, server: &Server, proxy: ProxyType)
    ensures
        step_views(final(plan)@) == step_views(old(plan)@) + proxy_setup_spec(server@, proxy),
{
    push_run(plan, install_command(proxy));
    let content = render_proxy_config(server, proxy);
    push_step(plan, RemoteStep::WriteFile { path: config_path(proxy).to_string(), content });
    match enabled_symlink_path(proxy) {
        Some(link) => {
            let cmd = link_command(config_path(proxy), link);
            push_run(plan, cmd.as_str());
        },
        None => {},
    }
    push_run(plan, reload_command(proxy));
    assert(step_views(plan@) =~= step_views(old(plan)@) + proxy_setup_spec(server@, proxy));
}

} // verus!
