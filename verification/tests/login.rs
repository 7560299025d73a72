use ashlogin::accounts::{AuthType, ServerConfig};
use ashlogin::config::{Config, OsArg, Server};
use ashlogin::session::{
    check_runtime_requirements, confirmation_result, created_default_message, exit_code,
    keygen_lookup_args, keyscan_args, keyscan_outcome, known_host_check, menu_labels,
    saved_host_message, select_without_prompt, KnownHostStep, LaunchError,
};
use ashlogin::ssh::{
    after_round, check_authenticated, connect, exit_status_result, on_channel_write,
    on_local_input, on_remote_read, system_ssh_result, ConnectPlan, InputStep, IoOutcome,
    RemoteStream, RoundStep, ShellStep, WriteStep,
};

fn server(name: &str) -> Server {
    Server {
        name: name.into(),
        aliases: Vec::new(),
        host: " 203.0.113.10 ".into(),
        user: "deploy".into(),
        port: 22,
        description: None,
        password: None,
        identity_file: None,
        ssh_options: Vec::new(),
    }
}

fn account(auth: AuthType) -> ServerConfig {
    ServerConfig {
        name: "prod".into(),
        host: "203.0.113.10".into(),
        port: 2222,
        username: "deploy".into(),
        auth_type: auth,
        keychain_service: None,
        keychain_account: None,
        private_key: None,
    }
}

#[test]
fn single_server_needs_no_prompt() {
    let one = Config { servers: vec![server("a")] };
    assert_eq!(select_without_prompt(&one, false).unwrap(), Some(0));
    let two = Config { servers: vec![server("a"), server("b")] };
    assert_eq!(select_without_prompt(&two, true).unwrap(), None);
    let err = select_without_prompt(&two, false).unwrap_err();
    assert_eq!(
        err.message(),
        "multiple servers are configured. use `ashlogin --list` or `ashlogin <name>` in non-interactive environments"
    );
    assert_eq!(menu_labels(&two).len(), 2);
    assert_eq!(menu_labels(&two)[0], two.servers[0].menu_label());
}

#[test]
fn sshpass_is_required_only_for_passwords() {
    let mut s = server("legacy");
    assert!(check_runtime_requirements(&s, false).is_ok());
    s.password = Some("x".into());
    assert!(check_runtime_requirements(&s, true).is_ok());
    let err = check_runtime_requirements(&s, false).unwrap_err();
    assert_eq!(
        err.message(),
        "server `legacy` uses password auth, but `sshpass` was not found in PATH"
    );
}

#[test]
fn host_keys_are_trusted_or_confirmed() {
    assert!(matches!(known_host_check("h", b"/k", true, false), KnownHostStep::Trusted));
    match known_host_check("h", b"/k", false, false) {
        KnownHostStep::Refuse(e) => assert_eq!(
            e.message(),
            "host `h` is not present in /k. run interactively once to confirm and save its host key"
        ),
        _ => panic!("expected a refusal"),
    }
    match known_host_check("[h]:2200", b"/k", false, true) {
        KnownHostStep::Confirm { prompt } => assert_eq!(
            prompt,
            "Host `[h]:2200` is not trusted yet. Fetch its SSH host key and save it to /k?"
        ),
        _ => panic!("expected a prompt"),
    }
    assert!(confirmation_result("h", true).is_ok());
    assert_eq!(
        confirmation_result("h", false).unwrap_err().message(),
        "aborted because host `h` is not trusted yet"
    );
}

#[test]
fn keyscan_arguments_and_outcomes() {
    let mut s = server("a");
    assert_eq!(keyscan_args(&s), vec!["-H", "203.0.113.10"]);
    s.port = 2200;
    assert_eq!(keyscan_args(&s), vec!["-H", "-p", "2200", "203.0.113.10"]);
    assert_eq!(
        keygen_lookup_args("h", b"/k"),
        vec![
            OsArg::Text("-F".into()),
            OsArg::Text("h".into()),
            OsArg::Text("-f".into()),
            OsArg::Path(b"/k".to_vec()),
        ]
    );
    assert!(keyscan_outcome("h", true, "", false).is_ok());
    assert_eq!(
        keyscan_outcome("h", false, "  refused \n", false).unwrap_err().message(),
        "failed to fetch host key for `h`: refused"
    );
    assert_eq!(
        keyscan_outcome("h", true, "", true).unwrap_err().message(),
        "ssh-keyscan returned no host key data for `h`"
    );
    assert!(matches!(
        keyscan_outcome("h", true, "", true),
        Err(LaunchError::KeyscanEmpty { .. })
    ));
}

#[test]
fn messages_around_a_run() {
    assert_eq!(
        created_default_message(b"/home/me/.config/ashlogin/config.toml"),
        "Created a default config at /home/me/.config/ashlogin/config.toml.\nEdit that file with your servers, then run ashlogin again."
    );
    assert_eq!(
        saved_host_message("h", b"/k"),
        "Saved host key for `h` to /k."
    );
    assert_eq!(exit_code(Some(3)), 3);
    assert_eq!(exit_code(None), 1);
}

#[test]
fn connect_picks_the_way_to_log_in() {
    match connect(&account(AuthType::Password)) {
        ConnectPlan::KeychainPassword { service, account } => {
            assert_eq!(service, "AshLogin");
            assert_eq!(account, "deploy@prod");
        }
        _ => panic!("expected the keychain"),
    }
    let mut a = account(AuthType::Password);
    a.keychain_service = Some("svc".into());
    a.keychain_account = Some("acct".into());
    assert_eq!(a.keychain_service(), "svc");
    assert_eq!(a.keychain_account(), "acct");
    match connect(&account(AuthType::SshKey)) {
        ConnectPlan::SystemSsh { args } => {
            assert_eq!(args, vec!["-p", "2222", "deploy@203.0.113.10"]);
        }
        _ => panic!("expected system ssh"),
    }
    let mut k = account(AuthType::SshKey);
    k.private_key = Some("/keys/id".into());
    match connect(&k) {
        ConnectPlan::PrivateKey { path } => assert_eq!(path, "/keys/id"),
        _ => panic!("expected a key file"),
    }
}

#[test]
fn session_outcomes() {
    assert!(check_authenticated(true).is_ok());
    assert_eq!(
        check_authenticated(false).unwrap_err().message(),
        "ssh authentication did not complete"
    );
    assert_eq!(
        system_ssh_result(false, "exit status: 255".into()).unwrap_err().message(),
        "system ssh exited with status exit status: 255"
    );
    assert!(system_ssh_result(true, String::new()).is_ok());
    assert!(exit_status_result(Some(0)).is_ok());
    assert!(exit_status_result(None).is_ok());
    assert_eq!(
        exit_status_result(Some(-1)).unwrap_err().message(),
        "ssh session exited with status -1"
    );
    assert_eq!(
        exit_status_result(Some(130)).unwrap_err().message(),
        "ssh session exited with status 130"
    );
}

#[test]
fn remote_reads_and_channel_writes() {
    assert!(matches!(
        on_remote_read(RemoteStream::Output, IoOutcome::Bytes(5), false),
        ShellStep::Forward(5)
    ));
    assert!(matches!(
        on_remote_read(RemoteStream::Output, IoOutcome::Bytes(0), true),
        ShellStep::Finish
    ));
    assert!(matches!(
        on_remote_read(RemoteStream::ErrorOutput, IoOutcome::Bytes(0), true),
        ShellStep::Wait
    ));
    assert!(matches!(
        on_remote_read(RemoteStream::Output, IoOutcome::WouldBlock, false),
        ShellStep::Wait
    ));
    match on_remote_read(RemoteStream::Output, IoOutcome::Failed, true) {
        ShellStep::Fail(e) => assert_eq!(e.message(), "failed to read remote shell output"),
        _ => panic!("expected a failure"),
    }
    match on_remote_read(RemoteStream::ErrorOutput, IoOutcome::Failed, false) {
        ShellStep::Fail(e) => assert_eq!(e.message(), "failed to read remote shell stderr"),
        _ => panic!("expected a failure"),
    }
    assert!(matches!(on_channel_write(4, IoOutcome::Bytes(3)), WriteStep::Advance(3)));
    assert!(matches!(on_channel_write(4, IoOutcome::WouldBlock), WriteStep::Retry));
    match on_channel_write(4, IoOutcome::Bytes(0)) {
        WriteStep::Fail(e) => assert_eq!(e.message(), "ssh channel closed while writing"),
        _ => panic!("expected a failure"),
    }
    match on_channel_write(4, IoOutcome::Failed) {
        WriteStep::Fail(e) => assert_eq!(e.message(), "ssh channel write failed"),
        _ => panic!("expected a failure"),
    }
}

#[test]
fn terminal_input_and_session_end() {
    assert_eq!(on_local_input(0), InputStep::SendEof);
    assert_eq!(on_local_input(7), InputStep::Forward);
    assert_eq!(after_round(true), RoundStep::Close);
    assert_eq!(after_round(false), RoundStep::Poll);
}

#[test]
fn paths_that_are_not_text_display_lossily() {
    assert_eq!(
        saved_host_message("h", b"/home/\xff/.ssh/known_hosts"),
        "Saved host key for `h` to /home/\u{fffd}/.ssh/known_hosts."
    );
}
