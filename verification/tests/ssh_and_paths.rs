use ez_vps::ui::prompts::infer_default_ssh_key_path;
use ez_vps::config::{ProxyType, Server};
use ez_vps::error::Error;
use ez_vps::paths::{
    example_private_key_path, public_key_file_name, public_key_path, resolve_ssh_key_path,
};
use ez_vps::ssh::{
    address_candidates, connect_failure_context, diagnose_connection_error,
    distro_from_os_release, finish_remote_command, is_auth_rejection, is_likely_self_target,
    parse_os_release, shell_quote, unquote_os_release_value, validate_local_ssh_key,
    write_file_command, SshClient,
};

fn server() -> Server {
    Server {
        name: "prod-1".into(),
        host: "203.0.113.10".into(),
        user: "deploy".into(),
        port: 2222,
        ssh_key: "~/.ssh/id_ed25519".into(),
        managed_docker: false,
        managed_proxy: Some(ProxyType::Caddy),
        apps: Vec::new(),
    }
}

#[test]
fn shell_quote_escapes_single_quotes() {
    assert_eq!(shell_quote("echo hi"), "'echo hi'");
    assert_eq!(shell_quote("it's"), "'it'\\''s'");
    assert_eq!(shell_quote(""), "''");
}

#[test]
fn ssh_arguments_are_exact() {
    let client = SshClient::new(&server());
    let args = client.command_args("cat /etc/os-release", Some("/home/me"));
    assert_eq!(
        args,
        vec![
            "-i",
            "/home/me/.ssh/id_ed25519",
            "-p",
            "2222",
            "-o",
            "BatchMode=yes",
            "-o",
            "StrictHostKeyChecking=accept-new",
            "deploy@203.0.113.10",
            "sh -lc 'cat /etc/os-release'",
        ]
    );
    assert_eq!(client.server().name, "prod-1");
}

#[test]
fn write_file_uses_a_heredoc() {
    assert_eq!(
        write_file_command("/etc/caddy/Caddyfile", "a {\n}"),
        "cat <<'EZVPS' | sudo tee /etc/caddy/Caddyfile >/dev/null\na {\n}\nEZVPS"
    );
}

#[test]
fn remote_outcomes() {
    assert_eq!(
        finish_remote_command("ls", true, Some("  out\n"), "").unwrap(),
        "out"
    );
    let failed = finish_remote_command("ls", false, Some(""), "  boom \n").unwrap_err();
    assert_eq!(
        failed,
        Error::RemoteCommandFailed { command: "ls".into(), stderr: "boom".into() }
    );
    assert_eq!(failed.message(), "remote command failed: `ls`\nboom");
    let binary = finish_remote_command("ls", true, None, "").unwrap_err();
    assert_eq!(binary.message(), "remote command output was not valid UTF-8");
}

#[test]
fn os_release_fallbacks() {
    assert_eq!(
        parse_os_release("PRETTY_NAME=\"Debian GNU/Linux 12\"\nID=debian\n"),
        "Debian GNU/Linux 12"
    );
    assert_eq!(parse_os_release("ID=ubuntu\r\nVERSION_ID=22.04\r\n"), "ubuntu 22.04");
    assert_eq!(parse_os_release("ID=a\nID=b\nVERSION_ID=1\n"), "b 1");
    assert_eq!(parse_os_release("NAME=x\n"), "");
    let err = distro_from_os_release("NAME=x\n").unwrap_err();
    assert_eq!(err.message(), "remote distro detection returned an empty result");
    assert_eq!(distro_from_os_release("ID=ubuntu\nVERSION_ID=24.04").unwrap(), "ubuntu 24.04");
}

#[test]
fn os_release_values_are_unquoted() {
    let value: Vec<char> = "  \"\"24.04\" ".chars().collect();
    let unquoted: String = unquote_os_release_value(&value).into_iter().collect();
    assert_eq!(unquoted, "24.04");
}

#[test]
fn key_paths() {
    assert_eq!(resolve_ssh_key_path("  ~/.ssh/key ", Some("/home/me")), "/home/me/.ssh/key");
    assert_eq!(resolve_ssh_key_path("~/.ssh/key", None), "~/.ssh/key");
    assert_eq!(resolve_ssh_key_path("/etc/key", Some("/home/me")), "/etc/key");
    assert_eq!(example_private_key_path(Some("/home/me/")), "/home/me/.ssh/id_ed25519");
    assert_eq!(example_private_key_path(None), "~/.ssh/id_ed25519");
    assert_eq!(resolve_ssh_key_path("~//etc/key", Some("/home/me")), "/etc/key");
    assert_eq!(resolve_ssh_key_path("~/key", Some("")), "key");
    assert_eq!(resolve_ssh_key_path("~/key", Some("home")), "home/key");
}

#[test]
fn public_key_file_names() {
    assert_eq!(public_key_file_name(Some("id_rsa")), "id_rsa.pub");
    assert_eq!(public_key_file_name(Some("key.pem")), "key.pem.pub");
    assert_eq!(public_key_file_name(None), "id_ed25519.pub");
}

#[test]
fn inferred_key_path_is_never_blank() {
    for exists in [vec![], vec![false, false], vec![true, false], vec![false, true], vec![true, true]] {
        for home in [None, Some("/home/me"), Some(""), Some(" ")] {
            let path = infer_default_ssh_key_path(home, &exists);
            assert!(!path.trim().is_empty());
        }
    }
    assert_eq!(infer_default_ssh_key_path(Some(""), &vec![]), ".ssh/id_ed25519");
}

#[test]
fn public_key_path_edge_cases() {
    assert_eq!(public_key_path("id_rsa"), "id_rsa.pub");
    assert_eq!(public_key_path("/"), "/id_ed25519.pub");
    assert_eq!(public_key_path("/home/me/.ssh/key.pem"), "/home/me/.ssh/key.pem.pub");
}

#[test]
fn key_validation() {
    let mut s = server();
    assert!(validate_local_ssh_key(&s, Some("/home/me"), true).is_ok());
    let missing = validate_local_ssh_key(&s, Some("/home/me"), false).unwrap_err();
    assert_eq!(
        missing.message(),
        "SSH key file was not found: /home/me/.ssh/id_ed25519\nMake sure `ssh_key` points to a local private key on the machine running ez-vps, for example: /home/me/.ssh/id_ed25519"
    );
    s.ssh_key = "   ".into();
    let empty = validate_local_ssh_key(&s, None, true).unwrap_err();
    assert_eq!(
        empty.message(),
        "SSH key path is empty.\nSet `ssh_key` to the private key on the machine running ez-vps, for example: ~/.ssh/id_ed25519"
    );
}

#[test]
fn diagnoses_rejected_keys() {
    let s = server();
    let text = "remote command failed: `echo connected`\nPermission denied (publickey,password).";
    assert!(is_auth_rejection(text));
    let advice = diagnose_connection_error(&s, text, Some("/home/me"), true, false);
    assert_eq!(
        advice,
        "SSH authentication was rejected.\n\nCheck these items:\n  - The public key for /home/me/.ssh/id_ed25519 is installed in ~/.ssh/authorized_keys on the target server\n  - The SSH user `deploy` is correct\n  - The server allows key-based login on port 2222\n\nThen verify it manually:\n  ssh -i /home/me/.ssh/id_ed25519 deploy@203.0.113.10"
    );
    let self_advice = diagnose_connection_error(&s, text, Some("/home/me"), true, true);
    assert!(self_advice.starts_with("SSH authentication was rejected. It looks like"));
    assert!(self_advice.contains("cat /home/me/.ssh/id_ed25519.pub >> ~/.ssh/authorized_keys"));
    assert!(self_advice.ends_with("ssh -i /home/me/.ssh/id_ed25519 deploy@203.0.113.10"));
}

#[test]
fn diagnoses_other_failures() {
    let s = server();
    let missing = diagnose_connection_error(&s, "No such file or directory", None, false, false);
    assert_eq!(
        missing,
        "The local SSH key file could not be found.\n\nUpdate `ssh_key` so it points to a private key on the machine running ez-vps, for example:\n  ~/.ssh/id_ed25519"
    );
    let other = diagnose_connection_error(&s, "Connection timed out", None, false, false);
    assert_eq!(
        other,
        "SSH connection failed.\n\nCheck these items:\n  - Host `203.0.113.10` resolves to the correct server\n  - SSH user `deploy` and port `2222` are correct\n  - The private key exists locally at ~/.ssh/id_ed25519\n\nManual test:\n  ssh -i ~/.ssh/id_ed25519 -p 2222 deploy@203.0.113.10"
    );
    let present = diagnose_connection_error(&s, "No such file or directory", None, true, false);
    assert!(present.starts_with("SSH connection failed."));
    assert_eq!(
        connect_failure_context(&s),
        "failed to connect to deploy@203.0.113.10 using local ssh client"
    );
}

#[test]
fn self_target_detection() {
    assert!(is_likely_self_target("localhost", None, None, None));
    assert!(is_likely_self_target("::1", None, None, None));
    assert!(is_likely_self_target("MyBox", Some(" mybox\n"), None, None));
    assert!(!is_likely_self_target("mybox", Some("   "), None, None));
    let targets = vec!["10.0.0.5".to_string()];
    let locals = vec!["192.168.1.2".to_string(), "10.0.0.5".to_string()];
    assert!(is_likely_self_target("vps", Some("laptop"), Some(&targets), Some(&locals)));
    let others = vec!["192.168.1.2".to_string()];
    assert!(!is_likely_self_target("vps", Some("laptop"), Some(&targets), Some(&others)));
    assert!(!is_likely_self_target("vps", None, Some(&targets), None));
}

#[test]
fn local_address_candidates() {
    assert_eq!(
        address_candidates("10.0.0.5 192.168.1.2 \n", false),
        vec!["10.0.0.5", "192.168.1.2"]
    );
    assert_eq!(
        address_candidates(
            "Windows IP Configuration\r\n   IPv4 Address. . . : 10.0.0.5\r\n   Link: fe80::1\r\n",
            true
        ),
        vec!["10.0.0.5", "fe80"]
    );
}
