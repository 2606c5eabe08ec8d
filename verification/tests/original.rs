use ez_vps::commands::app::{dominant_proxy, validate_upstream_port};
use ez_vps::commands::check::is_successful_probe_response;
use ez_vps::commands::uninstall::proxy_types_to_remove;
use ez_vps::commands::update::server_proxy;
use ez_vps::config::{App, ProxyType, Server};
use ez_vps::paths::public_key_path;
use ez_vps::ssh::parse_os_release;
use ez_vps::ui::prompts::{default_upstream_port, infer_default_ssh_key_path};

fn server_with_apps(apps: Vec<App>) -> Server {
    Server {
        name: "prod-1".into(),
        host: "203.0.113.10".into(),
        user: "root".into(),
        port: 22,
        ssh_key: "/home/root/.ssh/id_ed25519".into(),
        managed_docker: false,
        managed_proxy: None,
        apps,
    }
}

#[test]
fn dominant_proxy_uses_existing_server_proxy() {
    let server = server_with_apps(vec![App {
        domain: "api.example.com".into(),
        upstream_port: 8000,
        proxy: ProxyType::Nginx,
    }]);

    assert_eq!(dominant_proxy(&server), ProxyType::Nginx);
}

#[test]
fn validate_upstream_port_rejects_zero() {
    assert!(validate_upstream_port(0).is_err());
}

#[test]
fn accepts_redirect_responses() {
    assert!(is_successful_probe_response("HTTP/1.1 308 Permanent Redirect"));
}

#[test]
fn rejects_server_errors() {
    assert!(!is_successful_probe_response("HTTP/1.1 502 Bad Gateway"));
}

#[test]
fn removes_both_proxies_when_no_apps_are_saved() {
    let server = Server {
        name: "prod-1".into(),
        host: "203.0.113.10".into(),
        user: "root".into(),
        port: 22,
        ssh_key: "/home/root/.ssh/id_ed25519".into(),
        managed_docker: false,
        managed_proxy: None,
        apps: Vec::new(),
    };

    assert!(proxy_types_to_remove(&server).is_empty());
}

#[test]
fn removes_only_tracked_proxy_when_present() {
    let server = Server {
        name: "prod-1".into(),
        host: "203.0.113.10".into(),
        user: "root".into(),
        port: 22,
        ssh_key: "/home/root/.ssh/id_ed25519".into(),
        managed_docker: false,
        managed_proxy: Some(ProxyType::Caddy),
        apps: Vec::new(),
    };

    assert_eq!(proxy_types_to_remove(&server), vec![ProxyType::Caddy]);
}

#[test]
fn detects_server_proxy_from_first_app() {
    let server = Server {
        name: "prod-1".into(),
        host: "203.0.113.10".into(),
        user: "root".into(),
        port: 22,
        ssh_key: "/home/root/.ssh/id_ed25519".into(),
        managed_docker: false,
        managed_proxy: None,
        apps: vec![App {
            domain: "api.example.com".into(),
            upstream_port: 8000,
            proxy: ProxyType::Caddy,
        }],
    };

    assert_eq!(server_proxy(&server), Some(ProxyType::Caddy));
}

#[test]
fn prefers_saved_managed_proxy_without_apps() {
    let server = Server {
        name: "prod-1".into(),
        host: "203.0.113.10".into(),
        user: "root".into(),
        port: 22,
        ssh_key: "/home/root/.ssh/id_ed25519".into(),
        managed_docker: true,
        managed_proxy: Some(ProxyType::Nginx),
        apps: Vec::new(),
    };

    assert_eq!(server_proxy(&server), Some(ProxyType::Nginx));
}

#[test]
fn parses_os_release_id_and_version() {
    let distro = parse_os_release("ID=ubuntu\nVERSION_ID=\"24.04\"\n");
    assert_eq!(distro, "ubuntu 24.04");
}

#[test]
fn derives_public_key_path_from_private_key() {
    let public = public_key_path("/home/demo/.ssh/id_ed25519");
    assert_eq!(public, "/home/demo/.ssh/id_ed25519.pub");
}

#[test]
fn defaults_to_web_app_port_when_server_has_no_apps() {
    let server = Server {
        name: "prod-1".into(),
        host: "203.0.113.10".into(),
        user: "root".into(),
        port: 22,
        ssh_key: "/home/root/.ssh/id_ed25519".into(),
        managed_docker: false,
        managed_proxy: None,
        apps: Vec::new(),
    };

    assert_eq!(default_upstream_port(&server), 8000);
}

#[test]
fn reuses_existing_app_port_when_present() {
    let server = Server {
        name: "prod-1".into(),
        host: "203.0.113.10".into(),
        user: "root".into(),
        port: 22,
        ssh_key: "/home/root/.ssh/id_ed25519".into(),
        managed_docker: false,
        managed_proxy: None,
        apps: vec![App {
            domain: "api.example.com".into(),
            upstream_port: 9000,
            proxy: ProxyType::Caddy,
        }],
    };

    assert_eq!(default_upstream_port(&server), 9000);
}

#[test]
fn inferred_ssh_key_path_is_not_empty() {
    assert!(!infer_default_ssh_key_path(Some("/home/demo"), &vec![false, false]).trim().is_empty());
    assert!(!infer_default_ssh_key_path(None, &vec![]).trim().is_empty());
}
