use ez_vps::commands::app::{
    add_app, add_summary, app_list_empty_notice, app_list_entry, app_list_heading, app_list_lines, apply_proxy, default_proxy_for_server,
    proxy_from_selection, remove_app, resolve_app_proxy, resolve_domain_for_removal,
    resolve_server_name, upstream_address, DomainChoice, ServerNameChoice,
};
use ez_vps::commands::check::{probe_command, proxy_check_command, proxy_types_for_server};
use ez_vps::commands::deploy::deploy_message;
use ez_vps::commands::status::status_message;
use ez_vps::commands::target_server_name;
use ez_vps::commands::uninstall::{
    clear_managed_state, perform_uninstall, uninstall_prompt, uninstall_summary,
};
use ez_vps::commands::update::{apply_update, update_summary};
use ez_vps::commands::version::{is_current_release, release_api_url, release_version, user_agent};
use ez_vps::config::{App, Config, ProxyType, Server};
use ez_vps::error::Error;
use ez_vps::plan::RemoteStep;

fn app(domain: &str, port: u16, proxy: ProxyType) -> App {
    App {
        domain: domain.into(),
        upstream_port: port,
        proxy,
    }
}

fn server(name: &str, apps: Vec<App>) -> Server {
    Server {
        name: name.into(),
        host: "203.0.113.10".into(),
        user: "root".into(),
        port: 22,
        ssh_key: "/home/root/.ssh/id_ed25519".into(),
        managed_docker: false,
        managed_proxy: None,
        apps,
    }
}

fn run(c: &str) -> RemoteStep {
    RemoteStep::Run(c.into())
}

#[test]
fn add_app_records_mapping_and_proxy() {
    let mut config = Config { servers: vec![server("prod-1", Vec::new())] };
    let snapshot = add_app(&mut config, "prod-1", app("api.example.com", 3000, ProxyType::Nginx)).unwrap();
    assert_eq!(snapshot.apps.len(), 1);
    assert_eq!(snapshot.managed_proxy, Some(ProxyType::Nginx));
    assert_eq!(config.servers[0].apps[0].domain, "api.example.com");
    assert_eq!(config.servers[0].effective_proxy(), Some(ProxyType::Nginx));
}

#[test]
fn add_app_errors_leave_config_unchanged() {
    let mut config = Config {
        servers: vec![server("prod-1", vec![app("api.example.com", 3000, ProxyType::Caddy)])],
    };
    let missing = add_app(&mut config, "nope", app("b.example.com", 3000, ProxyType::Caddy)).unwrap_err();
    assert_eq!(missing, Error::ServerNotFound { name: "nope".into() });
    let zero = add_app(&mut config, "prod-1", app("b.example.com", 0, ProxyType::Caddy)).unwrap_err();
    assert_eq!(zero, Error::InvalidUpstreamPort);
    assert_eq!(
        zero.message(),
        "app port to proxy to must be between 1 and 65535.\nUse the local port your app already listens on, for example `8000`."
    );
    let dup = add_app(&mut config, "prod-1", app("api.example.com", 4000, ProxyType::Caddy)).unwrap_err();
    assert_eq!(
        dup.message(),
        "an app for domain 'api.example.com' already exists on server 'prod-1'"
    );
    let mixed = add_app(&mut config, "prod-1", app("b.example.com", 4000, ProxyType::Nginx)).unwrap_err();
    assert_eq!(
        mixed.message(),
        "server 'prod-1' already uses Caddy. mixing proxy types on one server is not supported yet"
    );
    assert_eq!(config.servers[0].apps.len(), 1);
    assert_eq!(config.servers[0].managed_proxy, None);
}

#[test]
fn add_then_remove_restores_apps() {
    let mut config = Config {
        servers: vec![server("prod-1", vec![app("a.example.com", 3000, ProxyType::Caddy)])],
    };
    add_app(&mut config, "prod-1", app("b.example.com", 4000, ProxyType::Caddy)).unwrap();
    assert_eq!(config.servers[0].apps.len(), 2);
    let (snapshot, proxy) = remove_app(&mut config, "prod-1", "b.example.com").unwrap();
    assert_eq!(proxy, ProxyType::Caddy);
    assert_eq!(snapshot.apps.len(), 1);
    assert_eq!(config.servers[0].apps.len(), 1);
    assert_eq!(config.servers[0].apps[0].domain, "a.example.com");
}

#[test]
fn remove_app_errors() {
    let mut config = Config {
        servers: vec![server("prod-1", vec![app("a.example.com", 3000, ProxyType::Nginx)])],
    };
    let err = remove_app(&mut config, "prod-1", "zzz.example.com").unwrap_err();
    assert_eq!(err.message(), "domain 'zzz.example.com' was not found on server 'prod-1'");
    assert!(matches!(
        remove_app(&mut config, "other", "a.example.com"),
        Err(Error::ServerNotFound { .. })
    ));
    let (_, proxy) = remove_app(&mut config, "prod-1", "a.example.com").unwrap();
    assert_eq!(proxy, ProxyType::Nginx);
    assert!(config.servers[0].apps.is_empty());
}

#[test]
fn choosing_server_and_domain() {
    let one = Config { servers: vec![server("prod-1", Vec::new())] };
    assert!(matches!(resolve_server_name(&one, None), ServerNameChoice::Named(n) if n == "prod-1"));
    assert!(matches!(resolve_server_name(&one, Some("x")), ServerNameChoice::Named(n) if n == "x"));
    let two = Config { servers: vec![server("a", Vec::new()), server("b", Vec::new())] };
    match resolve_server_name(&two, None) {
        ServerNameChoice::Pick(items) => {
            assert_eq!(items, vec!["a (203.0.113.10)", "b (203.0.113.10)"])
        }
        other => panic!("unexpected {other:?}"),
    }

    let empty = server("prod-1", Vec::new());
    let err = resolve_domain_for_removal(&empty, None).unwrap_err();
    assert_eq!(err.message(), "server 'prod-1' has no app mappings to remove");
    let single = server("prod-1", vec![app("a.example.com", 3000, ProxyType::Caddy)]);
    assert!(matches!(
        resolve_domain_for_removal(&single, None).unwrap(),
        DomainChoice::Chosen(d) if d == "a.example.com"
    ));
    let many = server(
        "prod-1",
        vec![app("a.example.com", 3000, ProxyType::Caddy), app("b.example.com", 4000, ProxyType::Caddy)],
    );
    match resolve_domain_for_removal(&many, None).unwrap() {
        DomainChoice::Pick(items) => assert_eq!(
            items,
            vec!["a.example.com -> 127.0.0.1:3000", "b.example.com -> 127.0.0.1:4000"]
        ),
        other => panic!("unexpected {other:?}"),
    }
    assert!(matches!(
        resolve_domain_for_removal(&many, Some("given")).unwrap(),
        DomainChoice::Chosen(d) if d == "given"
    ));
}

#[test]
fn proxy_choices() {
    let caddy_server = server("a", vec![app("a.example.com", 3000, ProxyType::Caddy)]);
    assert_eq!(default_proxy_for_server(&caddy_server), Some(ProxyType::Caddy));
    assert_eq!(resolve_app_proxy(&caddy_server, Some(ProxyType::Nginx)), Some(ProxyType::Nginx));
    assert_eq!(resolve_app_proxy(&caddy_server, None), Some(ProxyType::Caddy));
    assert_eq!(resolve_app_proxy(&server("b", Vec::new()), None), None);
    assert_eq!(proxy_from_selection(0), ProxyType::Caddy);
    assert_eq!(proxy_from_selection(1), ProxyType::Nginx);
    assert_eq!(proxy_from_selection(7), ProxyType::Nginx);
}

#[test]
fn listing_and_summaries() {
    let a = app("api.example.com", 3000, ProxyType::Nginx);
    assert_eq!(app_list_entry(&a), "  - api.example.com -> 127.0.0.1:3000 (Nginx)");
    let s = server("prod-1", Vec::new());
    assert_eq!(app_list_heading(&s), "Apps for server 'prod-1'");
    assert_eq!(upstream_address(8000), "127.0.0.1:8000");
    assert_eq!(
        add_summary(&s, &a),
        vec![
            ("server".to_string(), "prod-1".to_string()),
            ("domain".to_string(), "api.example.com".to_string()),
            ("proxy".to_string(), "Nginx".to_string()),
            ("upstream".to_string(), "127.0.0.1:3000".to_string()),
        ]
    );
}

#[test]
fn applying_nginx_links_the_site() {
    let s = server("a", vec![app("a.example.com", 3000, ProxyType::Nginx)]);
    let plan = apply_proxy(&s, ProxyType::Nginx);
    assert_eq!(plan.len(), 5);
    assert_eq!(plan[0], run("sudo apt update"));
    assert_eq!(plan[1], run("sudo apt install -y nginx"));
    assert!(matches!(&plan[2], RemoteStep::WriteFile { path, content }
        if path == "/etc/nginx/sites-available/ez-vps.conf" && content.contains("server_name a.example.com;")));
    assert_eq!(
        plan[3],
        run("sudo ln -sf /etc/nginx/sites-available/ez-vps.conf /etc/nginx/sites-enabled/ez-vps.conf")
    );
    assert_eq!(plan[4], run("sudo nginx -t && sudo systemctl reload nginx"));
}

#[test]
fn check_probes() {
    let s = server(
        "a",
        vec![
            app("a", 1, ProxyType::Nginx),
            app("b", 2, ProxyType::Caddy),
            app("c", 3, ProxyType::Nginx),
        ],
    );
    assert_eq!(proxy_types_for_server(&s), vec![ProxyType::Nginx, ProxyType::Caddy]);
    assert_eq!(proxy_types_for_server(&server("e", Vec::new())), vec![ProxyType::Caddy]);
    assert_eq!(
        probe_command("api.example.com"),
        "curl -I -H 'Host: api.example.com' http://127.0.0.1 2>/dev/null | head -n 1"
    );
    assert_eq!(proxy_check_command(ProxyType::Caddy), "caddy version");
    assert_eq!(proxy_check_command(ProxyType::Nginx), "nginx -v");
}

#[test]
fn update_plan_and_summary() {
    let mut s = server("prod-1", vec![app("a.example.com", 3000, ProxyType::Caddy)]);
    s.managed_docker = true;
    let plan = apply_update(&s);
    assert_eq!(
        &plan[..5],
        &[
            run("sudo apt update"),
            run("sudo apt upgrade -y"),
            run("sudo apt install -y curl ufw"),
            run("sudo apt install -y docker.io"),
            run("sudo systemctl enable --now docker"),
        ][..]
    );
    assert_eq!(plan.len(), 8);
    assert_eq!(plan[7], run("sudo systemctl reload caddy"));
    let bare = apply_update(&server("b", Vec::new()));
    assert_eq!(bare.len(), 3);
    assert_eq!(
        update_summary(&s),
        vec![
            ("server".to_string(), "prod-1".to_string()),
            ("host".to_string(), "203.0.113.10".to_string()),
            ("apps".to_string(), "1".to_string()),
            ("proxy".to_string(), "Caddy".to_string()),
        ]
    );
    assert_eq!(update_summary(&server("b", Vec::new()))[3].1, "none");
}

#[test]
fn uninstall_plan_and_record() {
    let mut s = server("prod-1", Vec::new());
    s.managed_proxy = Some(ProxyType::Nginx);
    s.managed_docker = true;
    assert_eq!(
        perform_uninstall(&s),
        vec![
            run("sudo rm -f /etc/nginx/sites-enabled/ez-vps.conf"),
            run("sudo rm -f /etc/nginx/sites-available/ez-vps.conf"),
            run("sudo systemctl disable --now nginx || true && sudo apt remove -y nginx || true"),
            run("sudo systemctl disable --now docker || true && sudo apt remove -y docker.io || true"),
        ]
    );
    assert_eq!(
        uninstall_prompt(&s),
        "Uninstall ez-vps-managed services from 'prod-1' (203.0.113.10)?"
    );
    assert_eq!(uninstall_summary(&s)[2], ("apps removed".to_string(), "0".to_string()));

    let mut config = Config { servers: vec![s] };
    clear_managed_state(&mut config, "prod-1").unwrap();
    assert!(!config.servers[0].managed_docker);
    assert_eq!(config.servers[0].managed_proxy, None);
    assert!(perform_uninstall(&config.servers[0]).is_empty());
    assert!(clear_managed_state(&mut config, "other").is_err());
}

#[test]
fn version_checks() {
    assert_eq!(release_version("v1.2.3"), "1.2.3");
    assert_eq!(release_version("vv0.1.0"), "0.1.0");
    assert_eq!(release_version("1.0.0"), "1.0.0");
    assert!(is_current_release("v0.1.0", "0.1.0"));
    assert!(!is_current_release("v0.2.0", "0.1.0"));
    assert_eq!(
        release_api_url("IAM9PASA/ez-vps"),
        "https://api.github.com/repos/IAM9PASA/ez-vps/releases/latest"
    );
    assert_eq!(user_agent("0.1.0"), "ez-vps/0.1.0");
}

#[test]
fn scaffolded_commands_say_so() {
    assert_eq!(status_message(Some("prod-1")), "`status` for server 'prod-1' is scaffolded next.");
    assert_eq!(
        status_message(None),
        "`status` for server '<select during init>' is scaffolded next."
    );
    assert_eq!(
        deploy_message("web", None),
        "`deploy web` for server '<select during init>' is scaffolded next."
    );
}

#[test]
fn app_list_output() {
    let empty = server("prod-1", Vec::new());
    assert_eq!(app_list_empty_notice(&empty), Some("No app mappings saved yet.".to_string()));
    assert!(app_list_lines(&empty).is_empty());
    let two = server(
        "prod-1",
        vec![
            app("a.example.com", 3000, ProxyType::Caddy),
            app("b.example.com", 4000, ProxyType::Caddy),
        ],
    );
    assert_eq!(app_list_empty_notice(&two), None);
    assert_eq!(
        app_list_lines(&two),
        vec![
            "  - a.example.com -> 127.0.0.1:3000 (Caddy)".to_string(),
            "  - b.example.com -> 127.0.0.1:4000 (Caddy)".to_string(),
        ]
    );
}

#[test]
fn target_server_is_named_or_first() {
    let config = Config { servers: vec![server("first", Vec::new()), server("second", Vec::new())] };
    assert_eq!(target_server_name(&config, None), "first");
    assert_eq!(target_server_name(&config, Some("second")), "second");
    assert_eq!(target_server_name(&config, Some("elsewhere")), "elsewhere");
}

#[test]
fn new_server_is_unmanaged() {
    let s = Server::new("prod-1".into(), "203.0.113.10".into(), "root".into(), 2222, "/k".into());
    assert_eq!(s.name, "prod-1");
    assert_eq!(s.host, "203.0.113.10");
    assert_eq!(s.user, "root");
    assert_eq!(s.port, 2222);
    assert_eq!(s.ssh_key, "/k");
    assert!(!s.managed_docker);
    assert_eq!(s.managed_proxy, None);
    assert!(s.apps.is_empty());
}
