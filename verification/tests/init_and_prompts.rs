use ez_vps::commands::init::{execute_base_setup, is_supported_distro};
use ez_vps::config::{App, Config, ProxyType, Server};
use ez_vps::error::Error;
use ez_vps::plan::RemoteStep;
use ez_vps::proxy::render_proxy_config;
use ez_vps::ui::progress::{planned_commands, write_line};
use ez_vps::ui::prompts::{
    collect_init_options, collect_proxy_config, default_domain, detect_current_user,
    first_existing_app, infer_default_ssh_key_path, proxy_kind_from_index, select_docker,
    select_proxy, select_server, ssh_key_candidates, InitAnswers, InitOptions, ProxyConfig,
    ProxyConfigChoice, ProxyKind, ServerChoice,
};
use ez_vps::ui::summary::{init_summary_fields, proxy_config_preview};

fn server(name: &str, apps: Vec<App>) -> Server {
    Server {
        name: name.into(),
        host: "203.0.113.10".into(),
        user: "root".into(),
        port: 22,
        ssh_key: "/home/root/.ssh/id_ed25519".into(),
        managed_docker: false,
        managed_proxy: None,
        apps,
    }
}

fn no_answers() -> InitAnswers {
    InitAnswers {
        server_index: None,
        new_server: None,
        proxy: None,
        proxy_config: None,
        install_docker: None,
    }
}

fn options(proxy: ProxyKind, docker: bool) -> InitOptions {
    InitOptions {
        server: server("prod-1", Vec::new()),
        proxy,
        proxy_config: if proxy == ProxyKind::NoProxy {
            None
        } else {
            Some(ProxyConfig {
                domain: "app.example.com".into(),
                upstream_port: 8000,
            })
        },
        install_docker: docker,
    }
}

fn runs(plan: &[RemoteStep]) -> Vec<String> {
    plan.iter()
        .filter_map(|step| match step {
            RemoteStep::Run(command) => Some(command.clone()),
            _ => None,
        })
        .collect()
}

#[test]
fn non_interactive_init_uses_defaults() {
    let config = Config {
        servers: vec![server(
            "prod-1",
            vec![App {
                domain: "api.example.com".into(),
                upstream_port: 9000,
                proxy: ProxyType::Caddy,
            }],
        )],
    };
    let o = collect_init_options(&config, Some("prod-1"), false, no_answers()).unwrap();
    assert_eq!(o.proxy, ProxyKind::Caddy);
    assert!(o.install_docker);
    let cfg = o.proxy_config.unwrap();
    assert_eq!(cfg.domain, "api.example.com");
    assert_eq!(cfg.upstream_port, 9000);
}

#[test]
fn init_errors() {
    let config = Config { servers: vec![server("prod-1", Vec::new())] };
    let missing = collect_init_options(&config, Some("nope"), false, no_answers()).unwrap_err();
    assert_eq!(missing, Error::ServerNotFound { name: "nope".into() });
    let needs = collect_init_options(&config, None, false, no_answers()).unwrap_err();
    assert_eq!(needs.message(), "`init` requires --server when prompts are disabled");
}

#[test]
fn interactive_init_takes_answers() {
    let config = Config { servers: Vec::new() };
    let answers = InitAnswers {
        server_index: None,
        new_server: Some(server("fresh", Vec::new())),
        proxy: Some(ProxyKind::Nginx),
        proxy_config: Some(ProxyConfig {
            domain: "x.example.com".into(),
            upstream_port: 5000,
        }),
        install_docker: Some(false),
    };
    let o = collect_init_options(&config, None, true, answers).unwrap();
    assert_eq!(o.server.name, "fresh");
    assert_eq!(o.proxy, ProxyKind::Nginx);
    assert!(!o.install_docker);
    assert_eq!(o.proxy_config.unwrap().upstream_port, 5000);

    let single = Config { servers: vec![server("only", Vec::new())] };
    let answers = InitAnswers {
        server_index: None,
        new_server: None,
        proxy: Some(ProxyKind::NoProxy),
        proxy_config: Some(ProxyConfig {
            domain: "ignored".into(),
            upstream_port: 1,
        }),
        install_docker: Some(true),
    };
    let o = collect_init_options(&single, None, true, answers).unwrap();
    assert_eq!(o.server.name, "only");
    assert!(o.proxy_config.is_none());

    let two = Config { servers: vec![server("a", Vec::new()), server("b", Vec::new())] };
    let answers = InitAnswers {
        server_index: Some(1),
        new_server: None,
        proxy: Some(ProxyKind::Caddy),
        proxy_config: Some(ProxyConfig {
            domain: "b.example.com".into(),
            upstream_port: 7000,
        }),
        install_docker: Some(true),
    };
    let o = collect_init_options(&two, None, true, answers).unwrap();
    assert_eq!(o.server.name, "b");
    assert_eq!(o.proxy_config.unwrap().domain, "b.example.com");
}

#[test]
fn server_selection() {
    let empty = Config { servers: Vec::new() };
    assert!(matches!(select_server(&empty, None, true).unwrap(), ServerChoice::EnterNew));
    let two = Config { servers: vec![server("a", Vec::new()), server("b", Vec::new())] };
    assert!(matches!(select_server(&two, None, true).unwrap(), ServerChoice::Pick(items) if items.len() == 2));
    assert!(matches!(select_server(&two, Some("b"), false).unwrap(), ServerChoice::Selected(s) if s.name == "b"));
    assert_eq!(select_server(&two, None, false).unwrap_err(), Error::InitNeedsServer);
}

#[test]
fn prompt_defaults() {
    assert_eq!(select_proxy(false), Some(ProxyKind::Caddy));
    assert_eq!(select_proxy(true), None);
    assert_eq!(select_docker(false), Some(true));
    assert_eq!(select_docker(true), None);
    assert_eq!(proxy_kind_from_index(0), ProxyKind::Caddy);
    assert_eq!(proxy_kind_from_index(1), ProxyKind::Nginx);
    assert_eq!(proxy_kind_from_index(2), ProxyKind::NoProxy);
    assert_eq!(ProxyKind::NoProxy.label(), "None");
    assert_eq!(ProxyKind::Nginx.proxy_type(), Some(ProxyType::Nginx));
    assert_eq!(ProxyKind::NoProxy.proxy_type(), None);

    let bare = server("a", Vec::new());
    assert_eq!(default_domain(&bare), "example.com");
    assert!(first_existing_app(&bare).is_none());
    assert!(matches!(collect_proxy_config(ProxyKind::NoProxy, &bare, false), ProxyConfigChoice::Skip));
    assert!(matches!(collect_proxy_config(ProxyKind::Caddy, &bare, false),
        ProxyConfigChoice::Use(c) if c.domain == "example.com" && c.upstream_port == 8000));
    assert!(matches!(collect_proxy_config(ProxyKind::Caddy, &bare, true), ProxyConfigChoice::Ask(_)));

    assert_eq!(detect_current_user(Some("alice"), Some("bob")), "alice");
    assert_eq!(detect_current_user(None, Some("bob")), "bob");
    assert_eq!(detect_current_user(None, None), "root");

    assert_eq!(
        ssh_key_candidates("/home/me"),
        vec!["/home/me/.ssh/id_ed25519", "/home/me/.ssh/id_rsa"]
    );
    assert_eq!(infer_default_ssh_key_path(Some("/home/me"), &vec![false, true]), "/home/me/.ssh/id_rsa");
    assert_eq!(infer_default_ssh_key_path(Some("/home/me"), &vec![true, true]), "/home/me/.ssh/id_ed25519");
    assert_eq!(infer_default_ssh_key_path(None, &vec![]), "~/.ssh/id_ed25519");
}

#[test]
fn base_setup_with_nginx_and_docker() {
    let o = options(ProxyKind::Nginx, true);
    let plan = execute_base_setup(&o, o.proxy.proxy_type());
    assert_eq!(plan[0], RemoteStep::Announce("Updating packages".into()));
    assert!(plan.contains(&RemoteStep::Announce("Installing Nginx".into())));
    assert_eq!(
        runs(&plan),
        vec![
            "sudo apt update",
            "sudo apt install -y curl ufw",
            "sudo apt install -y docker.io",
            "sudo systemctl enable --now docker",
            "sudo apt install -y nginx",
            "sudo ln -sf /etc/nginx/sites-available/ez-vps.conf /etc/nginx/sites-enabled/ez-vps.conf",
            "sudo nginx -t && sudo systemctl reload nginx",
            "sudo ufw allow 80",
            "sudo ufw allow 443",
            "sudo ufw allow 22",
            "sudo ufw --force enable",
        ]
    );
    let written = plan
        .iter()
        .find_map(|step| match step {
            RemoteStep::WriteFile { content, .. } => Some(content.clone()),
            _ => None,
        })
        .unwrap();
    assert!(written.ends_with(&proxy_config_preview(&o)));
}

#[test]
fn preview_lists_what_setup_runs() {
    for (kind, docker) in [
        (ProxyKind::Caddy, true),
        (ProxyKind::Nginx, false),
        (ProxyKind::NoProxy, true),
    ] {
        let o = options(kind, docker);
        let planned = planned_commands(&o);
        let ran = runs(&execute_base_setup(&o, o.proxy.proxy_type()));
        let write = o.proxy.proxy_type().map(|p| write_line(p, "app.example.com", 8000));
        for command in &ran {
            assert!(planned.contains(command));
        }
        for line in &planned {
            assert!(ran.contains(line) || Some(line) == write.as_ref());
        }
    }
}

#[test]
fn planned_commands_exact() {
    let o = options(ProxyKind::Caddy, false);
    assert_eq!(
        planned_commands(&o),
        vec![
            "sudo apt update",
            "sudo apt install -y curl ufw",
            "sudo apt install -y caddy",
            "write /etc/caddy/Caddyfile for app.example.com -> 127.0.0.1:8000",
            "sudo systemctl reload caddy",
            "sudo ufw allow 22",
            "sudo ufw allow 80",
            "sudo ufw allow 443",
            "sudo ufw --force enable",
        ]
    );
}

#[test]
fn summary_fields_and_preview() {
    let o = options(ProxyKind::Caddy, true);
    assert_eq!(
        init_summary_fields(&o),
        vec![
            ("Server".to_string(), "prod-1".to_string()),
            ("Target".to_string(), "root@203.0.113.10".to_string()),
            ("User".to_string(), "root".to_string()),
            ("Port".to_string(), "22".to_string()),
            ("SSH key".to_string(), "/home/root/.ssh/id_ed25519".to_string()),
            ("Proxy".to_string(), "Caddy".to_string()),
            ("Docker".to_string(), "Yes".to_string()),
            ("Domain".to_string(), "app.example.com".to_string()),
            ("Upstream".to_string(), "127.0.0.1:8000".to_string()),
        ]
    );
    assert_eq!(
        proxy_config_preview(&o),
        "app.example.com {\n    reverse_proxy 127.0.0.1:8000\n}\n"
    );
    assert_eq!(proxy_config_preview(&options(ProxyKind::NoProxy, true)), "");
    let mut with_app = server("prod-1", Vec::new());
    with_app.apps.push(App {
        domain: "app.example.com".into(),
        upstream_port: 8000,
        proxy: ProxyType::Caddy,
    });
    assert!(render_proxy_config(&with_app, ProxyType::Caddy).ends_with(&proxy_config_preview(&o)));
}

#[test]
fn distro_support() {
    assert!(is_supported_distro("ubuntu 24.04"));
    assert!(!is_supported_distro("debian 12"));
    assert!(!is_supported_distro("ubuntu"));
    assert_eq!(
        Error::UnsupportedDistro { distro: "debian 12".into() }.message(),
        "unsupported distro 'debian 12'. Ubuntu 22.04+ is the current supported target"
    );
}
