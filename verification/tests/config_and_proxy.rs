use ez_vps::cli::ProxyValue;
use ez_vps::config::{default_ssh_port, App, Config, ProxyType, Server};
use ez_vps::error::Error;
use ez_vps::proxy::{
    config_path, enabled_symlink_path, install_command, reload_command, render_app_preview,
    render_proxy_config,
};

fn app(domain: &str, port: u16, proxy: ProxyType) -> App {
    App {
        domain: domain.into(),
        upstream_port: port,
        proxy,
    }
}

fn server(name: &str, apps: Vec<App>) -> Server {
    Server {
        name: name.into(),
        host: "203.0.113.10".into(),
        user: "root".into(),
        port: 22,
        ssh_key: "/home/root/.ssh/id_ed25519".into(),
        managed_docker: false,
        managed_proxy: None,
        apps,
    }
}

#[test]
fn find_server_returns_first_match_or_error() {
    let mut first = server("prod-1", Vec::new());
    first.host = "198.51.100.1".into();
    let config = Config {
        servers: vec![first, server("prod-1", Vec::new()), server("staging", Vec::new())],
    };
    assert_eq!(config.find_server("prod-1").unwrap().host, "198.51.100.1");
    assert_eq!(config.find_server("staging").unwrap().name, "staging");
    let err = config.find_server("missing").unwrap_err();
    assert_eq!(err, Error::ServerNotFound { name: "missing".into() });
    assert_eq!(err.message(), "server 'missing' was not found in config");
}

#[test]
fn validate_requires_a_server() {
    let empty = Config { servers: Vec::new() };
    let err = empty.validate().unwrap_err();
    assert_eq!(err.message(), "config does not contain any [[servers]] entries");
    let one = Config { servers: vec![server("prod-1", Vec::new())] };
    assert!(one.validate().is_ok());
}

#[test]
fn find_server_mut_edits_in_place() {
    let mut config = Config {
        servers: vec![server("a", Vec::new()), server("b", Vec::new())],
    };
    config.find_server_mut("b").unwrap().managed_docker = true;
    assert!(config.servers[1].managed_docker);
    assert!(!config.servers[0].managed_docker);
    assert!(config.find_server_mut("c").is_err());
}

#[test]
fn upsert_server_replaces_or_appends_then_finds_it() {
    let mut config = Config {
        servers: vec![server("a", Vec::new()), server("b", Vec::new())],
    };
    let mut replacement = server("b", Vec::new());
    replacement.host = "192.0.2.7".into();
    config.upsert_server(replacement);
    assert_eq!(config.servers.len(), 2);
    assert_eq!(config.find_server("b").unwrap().host, "192.0.2.7");
    assert_eq!(config.find_server("a").unwrap().host, "203.0.113.10");

    config.upsert_server(server("c", Vec::new()));
    assert_eq!(config.servers.len(), 3);
    assert_eq!(config.servers[2].name, "c");
}

#[test]
fn upsert_app_replaces_by_domain() {
    let mut s = server("a", vec![app("x.example.com", 3000, ProxyType::Caddy)]);
    s.upsert_app(app("x.example.com", 4000, ProxyType::Caddy));
    assert_eq!(s.apps.len(), 1);
    assert_eq!(s.apps[0].upstream_port, 4000);
    s.upsert_app(app("y.example.com", 5000, ProxyType::Caddy));
    assert_eq!(s.apps.len(), 2);
    assert_eq!(s.apps[1].domain, "y.example.com");
}

#[test]
fn destination_and_effective_proxy() {
    let mut s = server("a", Vec::new());
    assert_eq!(s.destination(), "root@203.0.113.10");
    assert_eq!(s.effective_proxy(), None);
    s.apps.push(app("x.example.com", 3000, ProxyType::Nginx));
    assert_eq!(s.effective_proxy(), Some(ProxyType::Nginx));
    s.managed_proxy = Some(ProxyType::Caddy);
    assert_eq!(s.effective_proxy(), Some(ProxyType::Caddy));
}

#[test]
fn labels_and_default_port() {
    assert_eq!(ProxyType::Caddy.label(), "Caddy");
    assert_eq!(ProxyType::Nginx.label(), "Nginx");
    assert_eq!(default_ssh_port(), 22);
    assert_eq!(ProxyType::from(ProxyValue::Caddy), ProxyType::Caddy);
    assert_eq!(ProxyType::from(ProxyValue::Nginx), ProxyType::Nginx);
}

#[test]
fn caddy_preview_is_exact() {
    let preview = render_app_preview(&app("api.example.com", 3000, ProxyType::Caddy));
    assert_eq!(preview, "api.example.com {\n    reverse_proxy 127.0.0.1:3000\n}\n");
}

#[test]
fn nginx_preview_is_exact() {
    let preview = render_app_preview(&app("api.example.com", 8080, ProxyType::Nginx));
    assert_eq!(
        preview,
        "server {\n    listen 80;\n    server_name api.example.com;\n\n    location / {\n        proxy_pass http://127.0.0.1:8080;\n        proxy_set_header Host $host;\n        proxy_set_header X-Real-IP $remote_addr;\n        proxy_set_header X-Forwarded-For $proxy_add_x_forwarded_for;\n        proxy_set_header X-Forwarded-Proto $scheme;\n    }\n}\n"
    );
}

#[test]
fn ports_render_in_decimal() {
    let low = render_app_preview(&app("a", 1, ProxyType::Caddy));
    assert_eq!(low, "a {\n    reverse_proxy 127.0.0.1:1\n}\n");
    let high = render_app_preview(&app("a", 65535, ProxyType::Caddy));
    assert_eq!(high, "a {\n    reverse_proxy 127.0.0.1:65535\n}\n");
    let zero_inside = render_app_preview(&app("a", 10203, ProxyType::Caddy));
    assert_eq!(zero_inside, "a {\n    reverse_proxy 127.0.0.1:10203\n}\n");
}

#[test]
fn caddy_config_joins_only_caddy_apps() {
    let s = server(
        "a",
        vec![
            app("one.example.com", 3000, ProxyType::Caddy),
            app("two.example.com", 4000, ProxyType::Nginx),
            app("three.example.com", 5000, ProxyType::Caddy),
        ],
    );
    assert_eq!(
        render_proxy_config(&s, ProxyType::Caddy),
        "one.example.com {\n    reverse_proxy 127.0.0.1:3000\n}\n\nthree.example.com {\n    reverse_proxy 127.0.0.1:5000\n}\n"
    );
}

#[test]
fn placeholders_when_nothing_is_mapped() {
    let empty = server("a", Vec::new());
    assert_eq!(
        render_proxy_config(&empty, ProxyType::Caddy),
        ":80 {\n    respond \"ez-vps is ready\" 200\n}\n"
    );
    assert_eq!(
        render_proxy_config(&empty, ProxyType::Nginx),
        "server {\n    listen 80 default_server;\n    server_name _;\n\n    return 200 'ez-vps is ready';\n}\n"
    );
    let only_nginx = server("a", vec![app("n.example.com", 3000, ProxyType::Nginx)]);
    assert_eq!(render_proxy_config(&only_nginx, ProxyType::Caddy), "");
}

#[test]
fn proxy_paths_and_commands() {
    assert_eq!(config_path(ProxyType::Caddy), "/etc/caddy/Caddyfile");
    assert_eq!(config_path(ProxyType::Nginx), "/etc/nginx/sites-available/ez-vps.conf");
    assert_eq!(enabled_symlink_path(ProxyType::Caddy), None);
    assert_eq!(
        enabled_symlink_path(ProxyType::Nginx),
        Some("/etc/nginx/sites-enabled/ez-vps.conf")
    );
    assert_eq!(reload_command(ProxyType::Caddy), "sudo systemctl reload caddy");
    assert_eq!(
        reload_command(ProxyType::Nginx),
        "sudo nginx -t && sudo systemctl reload nginx"
    );
    assert_eq!(install_command(ProxyType::Caddy), "sudo apt install -y caddy");
    assert_eq!(install_command(ProxyType::Nginx), "sudo apt install -y nginx");
}
