use ashlogin::config::{
    config_source, default_port, default_resolution, shell_quote, Config, ConfigResolution,
    ConfigSource, OsArg, Server,
};
use ashlogin::error::ConfigError;
use ashlogin::paths::{
    default_config_path, default_config_path_with, ensure_existing_file, expand_user_path,
    expand_user_path_with, join_path, known_hosts_path_with, display_path, text_path,
};

/// The arguments as they read when displayed.
fn arg_texts(args: &[OsArg]) -> Vec<String> {
    args.iter()
        .map(|a| match a {
            OsArg::Text(t) => t.clone(),
            OsArg::Path(p) => String::from_utf8_lossy(p).into_owned(),
        })
        .collect()
}

fn server(name: &str, host: &str, user: &str) -> Server {
    Server {
        name: name.into(),
        aliases: Vec::new(),
        host: host.into(),
        user: user.into(),
        port: 22,
        description: None,
        password: None,
        identity_file: None,
        ssh_options: Vec::new(),
    }
}

#[test]
fn finds_server_by_name_or_alias_case_insensitively() {
    let config = Config {
        servers: vec![Server {
            name: "Prod".into(),
            aliases: vec!["p".into()],
            host: "203.0.113.10".into(),
            user: "deploy".into(),
            port: 22,
            description: None,
            password: None,
            identity_file: None,
            ssh_options: Vec::new(),
        }],
    };

    assert!(config.find_server("prod").is_some());
    assert!(config.find_server("P").is_some());
    assert!(config.find_server("missing").is_none());
}

#[test]
fn renders_preview_command() {
    let server = Server {
        name: "prod".into(),
        aliases: Vec::new(),
        host: "203.0.113.10".into(),
        user: "deploy".into(),
        port: 2222,
        description: None,
        password: Some("super-secret".into()),
        identity_file: Some("~/.ssh/id_ed25519".into()),
        ssh_options: vec!["IdentitiesOnly=yes".into()],
    };

    let preview = server.preview_command().expect("preview should build");
    assert!(preview.contains("SSHPASS=*** sshpass -e ssh"));
    assert!(preview.contains("ssh -p 2222"));
    assert!(preview.contains("-i"));
    assert!(preview.contains("deploy@203.0.113.10"));
    assert!(!preview.contains("super-secret"));
}

#[test]
fn builds_sshpass_command_when_password_is_present() {
    let server = Server {
        name: "prod".into(),
        aliases: Vec::new(),
        host: "203.0.113.10".into(),
        user: "deploy".into(),
        port: 22,
        description: None,
        password: Some("super-secret".into()),
        identity_file: None,
        ssh_options: Vec::new(),
    };

    let command = server
        .ssh_invocation()
        .expect("sshpass command should build");

    assert_eq!(command.program, "sshpass");
    assert_eq!(arg_texts(&command.args), vec!["-e", "ssh", "deploy@203.0.113.10"]);
    assert_eq!(
        command.envs,
        vec![("SSHPASS".to_string(), "super-secret".to_string())]
    );
}

#[test]
fn known_hosts_lookup_uses_bracket_notation_for_custom_port() {
    let server = Server {
        name: "prod".into(),
        aliases: Vec::new(),
        host: "203.0.113.10".into(),
        user: "deploy".into(),
        port: 2200,
        description: None,
        password: None,
        identity_file: None,
        ssh_options: Vec::new(),
    };

    assert_eq!(server.known_hosts_lookup(), "[203.0.113.10]:2200");
}

#[test]
fn builds_default_config_path_under_dot_config() {
    let path = default_config_path().expect("default config path should build");
    let path_text = String::from_utf8_lossy(&path).into_owned();

    assert!(path_text.contains(".config/ashlogin/config.toml"));
}

#[test]
fn created_default_variant_exposes_path_shape() {
    let resolution =
        ConfigResolution::CreatedDefault(b"/tmp/example/.config/ashlogin/config.toml".to_vec());

    match resolution {
        ConfigResolution::CreatedDefault(path) => {
            assert!(path.ends_with(b"ashlogin/config.toml"));
        }
        ConfigResolution::Ready(_) => panic!("expected created default variant"),
    }
}

#[test]
fn default_port_is_22() {
    assert_eq!(default_port(), 22);
}

#[test]
fn target_trims_user_and_host() {
    let s = server("x", "  example.org \t", " root ");
    assert_eq!(s.target(), "root@example.org");
    assert_eq!(s.target_with_port(), "root@example.org");
    assert_eq!(s.known_hosts_lookup(), "example.org");
    let mut s = s;
    s.port = 2222;
    assert_eq!(s.target_with_port(), "root@example.org:2222");
    assert_eq!(s.known_hosts_lookup(), "[example.org]:2222");
}

#[test]
fn menu_label_pads_name_and_lists_aliases() {
    let mut s = server(" prod ", "203.0.113.10", "deploy");
    assert_eq!(s.menu_label(), "prod               deploy@203.0.113.10");
    s.description = Some("  Main production host ".into());
    s.aliases = vec!["p".into(), "main".into()];
    assert_eq!(
        s.menu_label(),
        "prod               deploy@203.0.113.10  Main production host  [p, main]"
    );
    assert_eq!(s.list_line(), s.menu_label());
    s.description = Some("   ".into());
    assert_eq!(s.description_text(), None);
    assert_eq!(s.menu_label(), "prod               deploy@203.0.113.10  [p, main]");
}

#[test]
fn menu_label_long_name_is_not_cut() {
    let s = server("a-very-long-server-name", "h", "u");
    assert_eq!(s.menu_label(), "a-very-long-server-name u@h");
}

#[test]
fn shell_quote_leaves_safe_words_alone() {
    assert_eq!(shell_quote("deploy@203.0.113.10"), "deploy@203.0.113.10");
    assert_eq!(shell_quote("IdentitiesOnly=yes"), "IdentitiesOnly=yes");
    assert_eq!(shell_quote(""), "");
    assert_eq!(shell_quote("a b"), "'a b'");
    assert_eq!(shell_quote("it's"), "'it'\"'\"'s'");
    assert_eq!(shell_quote("é"), "'é'");
}

#[test]
fn readme_examples_of_the_ssh_handoff() {
    let mut staging = server("staging", "203.0.113.20", "developer");
    staging.port = 2222;
    staging.ssh_options = vec!["ServerAliveInterval=30".into()];
    assert_eq!(
        staging.preview_command().unwrap(),
        "ssh -p 2222 -o ServerAliveInterval=30 developer@203.0.113.20"
    );
    let inv = staging.ssh_invocation().unwrap();
    assert_eq!(inv.program, "ssh");
    assert_eq!(
        arg_texts(&inv.args),
        vec!["-p", "2222", "-o", "ServerAliveInterval=30", "developer@203.0.113.20"]
    );
    assert!(inv.envs.is_empty());

    let mut legacy = server("legacy", "203.0.113.30", "root");
    legacy.password = Some("replace-me".into());
    assert_eq!(
        legacy.preview_command().unwrap(),
        "SSHPASS=*** sshpass -e ssh root@203.0.113.30"
    );
}

#[test]
fn preview_quotes_options_and_absolute_identity() {
    let mut s = server("x", "h", "u");
    s.identity_file = Some("/keys/my key".into());
    s.ssh_options = vec!["ProxyCommand=ssh -W %h:%p jump".into()];
    assert_eq!(
        s.preview_command().unwrap(),
        "ssh -i '/keys/my key' -o 'ProxyCommand=ssh -W %h:%p jump' u@h"
    );
    let inv = s.ssh_invocation().unwrap();
    assert_eq!(
        inv.args,
        vec![
            OsArg::Text("-i".into()),
            OsArg::Path(b"/keys/my key".to_vec()),
            OsArg::Text("-o".into()),
            OsArg::Text("ProxyCommand=ssh -W %h:%p jump".into()),
            OsArg::Text("u@h".into()),
        ]
    );
}

#[test]
fn preview_hides_different_passwords_alike() {
    let mut a = server("x", "h", "u");
    a.password = Some("one".into());
    let mut b = a.clone();
    b.password = Some("two".into());
    assert_eq!(a.preview_command().unwrap(), b.preview_command().unwrap());
    assert!(a.uses_password_auth());
    assert!(!server("x", "h", "u").uses_password_auth());
}

#[test]
fn preview_with_explicit_home_expands_tilde() {
    let mut s = server("x", "h", "u");
    s.identity_file = Some("~/.ssh/id".into());
    let home = Some(b"/home/me".to_vec());
    assert_eq!(
        s.preview_command_with(&home).unwrap(),
        "ssh -i /home/me/.ssh/id u@h"
    );
    let inv = s.ssh_invocation_with(&home).unwrap();
    assert_eq!(inv.args[1], OsArg::Path(b"/home/me/.ssh/id".to_vec()));
    let err = s.preview_command_with(&None).unwrap_err();
    assert_eq!(err.message(), "could not expand `~` to the home directory");
}

fn validate_message(servers: Vec<Server>) -> Option<String> {
    Config { servers }.validate().err().map(|e| e.message())
}

#[test]
fn validation_reports_each_problem() {
    assert_eq!(
        validate_message(vec![]),
        Some("config does not define any [[servers]] entries".to_string())
    );
    assert_eq!(
        validate_message(vec![server("  ", "h", "u")]),
        Some("server name cannot be empty".to_string())
    );
    assert_eq!(
        validate_message(vec![server(" prod ", " ", "u")]),
        Some("server `prod` is missing host".to_string())
    );
    assert_eq!(
        validate_message(vec![server("prod", "h", "")]),
        Some("server `prod` is missing user".to_string())
    );
    let mut s = server("prod", "h", "u");
    s.password = Some("  ".into());
    assert_eq!(
        validate_message(vec![s]),
        Some("server `prod` contains an empty password".to_string())
    );
    let mut s = server("prod", "h", "u");
    s.aliases = vec![" ".into()];
    assert_eq!(
        validate_message(vec![s]),
        Some("server `prod` contains an empty alias".to_string())
    );
    let mut s = server("prod", "h", "u");
    s.aliases = vec!["PROD ".into()];
    assert_eq!(
        validate_message(vec![s]),
        Some("duplicate server name or alias `PROD `".to_string())
    );
    let mut t = server("stage", "h", "u");
    t.aliases = vec!["p".into()];
    let mut s = server("Prod", "h", "u");
    s.aliases = vec!["P".into()];
    assert_eq!(
        validate_message(vec![t, s]),
        Some("duplicate server name or alias `P`".to_string())
    );
}

#[test]
fn validation_accepts_a_good_config_and_lookups_are_unique() {
    let mut a = server("prod", "h", "u");
    a.aliases = vec!["p".into()];
    let mut b = server("Stage", "h2", "u2");
    b.aliases = vec!["s".into(), "st".into()];
    let config = Config { servers: vec![a, b] };
    assert!(config.validate().is_ok());
    assert_eq!(config.get_server(" STAGE ").unwrap().host, "h2");
    assert_eq!(config.get_server("st").unwrap().host, "h2");
    assert_eq!(config.get_server("P").unwrap().host, "h");
    let err = config.get_server("nope").unwrap_err();
    assert_eq!(err.message(), "server `nope` not found");
    assert!(matches!(err, ConfigError::ServerNotFound { .. }));
}

#[test]
fn find_server_returns_first_match() {
    let a = server("dup", "first", "u");
    let b = server("DUP", "second", "u");
    let config = Config { servers: vec![a, b] };
    assert_eq!(config.find_server("dup").unwrap().host, "first");
}

#[test]
fn tilde_expansion_and_joining() {
    let home = Some(b"/home/me".to_vec());
    assert_eq!(expand_user_path_with(b"~", &home).unwrap(), b"/home/me");
    assert_eq!(expand_user_path_with(b"~/a/b", &home).unwrap(), b"/home/me/a/b");
    assert_eq!(expand_user_path_with(b"~//etc", &home).unwrap(), b"/etc");
    assert_eq!(expand_user_path_with(b"~user/x", &home).unwrap(), b"~user/x");
    assert_eq!(expand_user_path_with(b"/abs", &None).unwrap(), b"/abs");
    assert!(matches!(
        expand_user_path_with(b"~", &None),
        Err(ConfigError::TildeUnexpanded)
    ));
    assert_eq!(expand_user_path(b"relative/path").unwrap(), b"relative/path");
    assert_eq!(join_path(b"/home/me/", b"x"), b"/home/me/x");
    assert_eq!(join_path(b"", b"x"), b"x");
    assert_eq!(join_path(b"/a", b""), b"/a/");
    assert_eq!(join_path(b"/a", b"/b"), b"/b");
}

#[test]
fn home_directory_bytes_are_kept_as_they_are() {
    let home = Some(b"/home/j\xf6rg".to_vec());
    assert_eq!(expand_user_path_with(b"~/.ssh/id", &home).unwrap(), b"/home/j\xf6rg/.ssh/id");
    assert_eq!(expand_user_path_with(b"~", &home).unwrap(), b"/home/j\xf6rg");
    assert_eq!(
        known_hosts_path_with(&home).unwrap(),
        b"/home/j\xf6rg/.ssh/known_hosts"
    );
    assert_eq!(display_path(b"/home/j\xf6rg"), "/home/j\u{fffd}rg");
    assert_eq!(display_path("/home/jörg".as_bytes()), "/home/jörg");
    assert_eq!(text_path("~/k"), b"~/k");
}

#[test]
fn well_known_paths_under_home() {
    let home = Some(b"/home/me".to_vec());
    assert_eq!(
        default_config_path_with(&home).unwrap(),
        b"/home/me/.config/ashlogin/config.toml"
    );
    assert_eq!(known_hosts_path_with(&home).unwrap(), b"/home/me/.ssh/known_hosts");
    let err = default_config_path_with(&None).unwrap_err();
    assert_eq!(err.message(), "could not determine the home directory");
}

#[test]
fn missing_file_is_reported_with_its_source() {
    let err = ensure_existing_file(b"/nope/config.toml".to_vec(), "--config", false).unwrap_err();
    assert_eq!(err.message(), "--config points to a missing file: /nope/config.toml");
    assert_eq!(
        ensure_existing_file(b"/etc/x".to_vec(), "ASHLOGIN_CONFIG", true).unwrap(),
        b"/etc/x"
    );
}

#[test]
fn default_file_is_ready_or_created() {
    let p = b"/home/me/.config/ashlogin/config.toml".to_vec();
    assert_eq!(default_resolution(p.clone(), true), ConfigResolution::Ready(p.clone()));
    assert_eq!(default_resolution(p.clone(), false), ConfigResolution::CreatedDefault(p));
}

#[test]
fn explicit_path_resolution_requires_existing_file() {
    let source = config_source(Some(b"/definitely/missing/config.toml".to_vec()), None);
    let (path, source) = match source {
        ConfigSource::Given { path, source } => (path, source),
        ConfigSource::Default => panic!("an explicit path is used first"),
    };
    let expanded = expand_user_path(&path).unwrap();
    let is_file = std::path::Path::new(std::str::from_utf8(&expanded).unwrap()).is_file();
    let result = ensure_existing_file(expanded, &source, is_file);
    assert!(result.is_err());
}

#[test]
fn config_source_order_is_flag_then_variable_then_default() {
    assert_eq!(
        config_source(Some(b"a".to_vec()), Some("b".into())),
        ConfigSource::Given { path: b"a".to_vec(), source: "--config".into() }
    );
    assert_eq!(
        config_source(None, Some("b".into())),
        ConfigSource::Given { path: b"b".to_vec(), source: "ASHLOGIN_CONFIG".into() }
    );
    assert_eq!(config_source(None, None), ConfigSource::Default);
}

#[test]
fn preview_is_the_quoted_invocation_with_the_password_masked() {
    let mut s = server("x", "h", "u b");
    s.port = 2022;
    s.password = Some("pw".into());
    s.identity_file = Some("/k/id".into());
    s.ssh_options = vec!["A=1".into(), "B=two words".into()];
    let inv = s.ssh_invocation().unwrap();
    let mut words = vec!["SSHPASS=***".to_string(), shell_quote(&inv.program)];
    words.extend(arg_texts(&inv.args).iter().map(|a| shell_quote(a)));
    assert_eq!(s.preview_command().unwrap(), words.join(" "));
    assert_eq!(
        s.preview_command().unwrap(),
        "SSHPASS=*** sshpass -e ssh -p 2022 -i /k/id -o A=1 -o 'B=two words' 'u b@h'"
    );
}
