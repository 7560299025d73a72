use ashlogin::accounts::{AuthType, Config, ServerConfig};
use ashlogin::ui::{required, server_item_label, App, FormError, KeyCode, SubmitResult};

fn account(name: &str) -> ServerConfig {
    ServerConfig {
        name: name.into(),
        host: format!("{name}.example.org"),
        port: 22,
        username: "root".into(),
        auth_type: AuthType::SshKey,
        keychain_service: None,
        keychain_account: None,
        private_key: None,
    }
}

fn app_with(names: &[&str]) -> App {
    App::new(Config { servers: names.iter().map(|n| account(n)).collect() })
}

fn type_text(app: &mut App, text: &str) {
    for c in text.chars() {
        app.on_key(KeyCode::Char(c)).unwrap();
    }
}

#[test]
fn new_screen_starts_at_the_top() {
    let app = app_with(&["a", "b"]);
    assert_eq!(app.status, "配置模式: a 新增, d 删除, q 退出");
    assert!(!app.should_quit);
    assert_eq!(app.status(), "配置模式: a 新增, d 删除, q 退出");
    assert!(!app.should_quit());
    assert_eq!(app.config().servers.len(), app.config.servers.len());
    assert_eq!(app.selected(), 0);
    assert_eq!(app.highlighted(), Some(0));
    assert!(app.dialog_lines().is_none());
}

#[test]
fn cursor_wraps_around_both_ways() {
    let mut app = app_with(&["a", "b", "c"]);
    app.on_key(KeyCode::Up).unwrap();
    assert_eq!(app.selected(), 2);
    app.on_key(KeyCode::Char('j')).unwrap();
    assert_eq!(app.selected(), 0);
    app.on_key(KeyCode::Down).unwrap();
    app.on_key(KeyCode::Char('k')).unwrap();
    assert_eq!(app.selected(), 0);
    let mut empty = app_with(&[]);
    empty.on_key(KeyCode::Down).unwrap();
    assert_eq!(empty.selected(), 0);
    assert_eq!(empty.highlighted(), None);
    assert_eq!(empty.list_items(), vec!["还没有账号，按 a 新增".to_string()]);
}

#[test]
fn list_keys_quit_and_delete() {
    let mut app = app_with(&["a"]);
    assert!(matches!(app.on_key(KeyCode::Char('d')).unwrap(), SubmitResult::DeleteSelected));
    assert!(matches!(app.on_key(KeyCode::Char('x')).unwrap(), SubmitResult::NoAction));
    app.on_key(KeyCode::Char('q')).unwrap();
    assert!(app.should_quit);
    assert!(app.should_quit());
}

#[test]
fn list_items_describe_accounts() {
    let app = app_with(&["web"]);
    assert_eq!(app.list_items(), vec!["web  root@web.example.org:22  [ssh_key]".to_string()]);
    let mut s = account("db");
    s.auth_type = AuthType::Password;
    s.port = 2200;
    assert_eq!(server_item_label(&s), "db  root@db.example.org:2200  [password]");
}

#[test]
fn add_and_remove_servers_keep_cursor_on_the_list() {
    let mut app = app_with(&["a", "b"]);
    app.add_server(account("c"));
    assert_eq!(app.selected(), 2);
    let removed = app.remove_selected_server().unwrap();
    assert_eq!(removed.name, "c");
    assert_eq!(app.selected(), 1);
    assert_eq!(app.config.servers.len(), 2);
    app.remove_selected_server();
    app.remove_selected_server();
    assert_eq!(app.selected(), 0);
    assert!(app.remove_selected_server().is_none());
}

#[test]
fn form_opens_with_defaults_and_escape_cancels() {
    let mut app = app_with(&[]);
    app.on_key(KeyCode::Char('a')).unwrap();
    assert_eq!(app.status, "新增账号: Tab 切换字段, Enter 下一项/提交, Esc 取消");
    let lines = app.dialog_lines().unwrap();
    assert_eq!(
        lines,
        vec![
            "> name: ",
            "  host: ",
            "  port: 22",
            "  username: ",
            "  auth_type: password",
            "  keychain_service: AshLogin",
            "  keychain_account: ",
            "  password: ",
        ]
    );
    assert_eq!(app.dialog_focus(), Some(0));
    app.on_key(KeyCode::Esc).unwrap();
    assert!(app.dialog_lines().is_none());
    assert_eq!(app.status, "已取消新增账号");
}

#[test]
fn filling_the_form_submits_a_password_account() {
    let mut app = app_with(&[]);
    app.on_key(KeyCode::Char('a')).unwrap();
    type_text(&mut app, " prod ");
    app.on_key(KeyCode::Tab).unwrap();
    type_text(&mut app, "10.0.0.1");
    app.on_key(KeyCode::Enter).unwrap();
    app.on_key(KeyCode::Backspace).unwrap();
    app.on_key(KeyCode::Backspace).unwrap();
    type_text(&mut app, "2x2");
    app.on_key(KeyCode::Down).unwrap();
    type_text(&mut app, "deploy");
    app.on_key(KeyCode::Tab).unwrap();
    app.on_key(KeyCode::Tab).unwrap();
    app.on_key(KeyCode::Tab).unwrap();
    let lines = app.dialog_lines().unwrap();
    assert_eq!(lines[2], "  port: 22");
    assert_eq!(lines[6], "> keychain_account: deploy@prod");
    app.on_key(KeyCode::Tab).unwrap();
    type_text(&mut app, "s3cret");
    assert_eq!(app.dialog_lines().unwrap()[7], "> password: ******");
    match app.on_key(KeyCode::Enter).unwrap() {
        SubmitResult::Save(request) => {
            assert_eq!(request.server.name, "prod");
            assert_eq!(request.server.host, "10.0.0.1");
            assert_eq!(request.server.port, 22);
            assert_eq!(request.server.username, "deploy");
            assert_eq!(request.server.auth_type, AuthType::Password);
            assert_eq!(request.server.keychain_service.as_deref(), Some("AshLogin"));
            assert_eq!(request.server.keychain_account.as_deref(), Some("deploy@prod"));
            assert_eq!(request.password.as_deref(), Some("s3cret"));
            app.complete_add("saved".to_string());
            app.add_server(request.server);
        }
        _ => panic!("expected a request"),
    }
    assert_eq!(app.status, "saved");
    assert!(app.dialog_lines().is_none());
    assert_eq!(app.config.servers.len(), 1);
}

#[test]
fn switching_to_key_auth_changes_the_fields() {
    let mut app = app_with(&[]);
    app.on_key(KeyCode::Char('a')).unwrap();
    for _ in 0..7 {
        app.on_key(KeyCode::Tab).unwrap();
    }
    assert_eq!(app.dialog_focus(), Some(7));
    app.on_key(KeyCode::Tab).unwrap();
    assert_eq!(app.dialog_focus(), Some(7));
    for _ in 0..3 {
        app.on_key(KeyCode::BackTab).unwrap();
    }
    assert_eq!(app.dialog_focus(), Some(4));
    app.on_key(KeyCode::Char(' ')).unwrap();
    let lines = app.dialog_lines().unwrap();
    assert_eq!(lines.len(), 6);
    assert_eq!(lines[4], "> auth_type: ssh_key");
    assert_eq!(lines[5], "  private_key: ");
    app.on_key(KeyCode::Right).unwrap();
    assert_eq!(app.dialog_lines().unwrap().len(), 8);
}

#[test]
fn submitting_reports_missing_fields_in_order() {
    let mut app = app_with(&[]);
    app.on_key(KeyCode::Char('a')).unwrap();
    for _ in 0..7 {
        app.on_key(KeyCode::Tab).unwrap();
    }
    let err = app.on_key(KeyCode::Enter).err().unwrap();
    assert_eq!(err.message(), "name 不能为空");
    assert!(app.dialog_lines().is_some());
    for _ in 0..7 {
        app.on_key(KeyCode::BackTab).unwrap();
    }
    type_text(&mut app, "n");
    app.on_key(KeyCode::Tab).unwrap();
    type_text(&mut app, "h");
    app.on_key(KeyCode::Tab).unwrap();
    app.on_key(KeyCode::Tab).unwrap();
    type_text(&mut app, "u");
    for _ in 0..4 {
        app.on_key(KeyCode::Tab).unwrap();
    }
    let err = app.on_key(KeyCode::Enter).err().unwrap();
    assert_eq!(err.message(), "password 不能为空");
}

#[test]
fn port_out_of_range_is_refused() {
    let mut app = app_with(&[]);
    app.on_key(KeyCode::Char('a')).unwrap();
    type_text(&mut app, "n");
    app.on_key(KeyCode::Tab).unwrap();
    type_text(&mut app, "h");
    app.on_key(KeyCode::Tab).unwrap();
    type_text(&mut app, "99999");
    app.on_key(KeyCode::Tab).unwrap();
    type_text(&mut app, "u");
    app.on_key(KeyCode::Tab).unwrap();
    app.on_key(KeyCode::Left).unwrap();
    app.on_key(KeyCode::Tab).unwrap();
    let err = app.on_key(KeyCode::Enter).err().unwrap();
    assert!(matches!(err, FormError::InvalidPort));
    assert_eq!(err.message(), "port 必须是 1-65535 的数字");
}

#[test]
fn key_account_keeps_private_key_and_blank_port_means_22() {
    let mut app = app_with(&[]);
    app.on_key(KeyCode::Char('a')).unwrap();
    type_text(&mut app, "n");
    app.on_key(KeyCode::Tab).unwrap();
    type_text(&mut app, "h");
    app.on_key(KeyCode::Tab).unwrap();
    app.on_key(KeyCode::Backspace).unwrap();
    app.on_key(KeyCode::Backspace).unwrap();
    app.on_key(KeyCode::Backspace).unwrap();
    app.on_key(KeyCode::Tab).unwrap();
    type_text(&mut app, "u");
    app.on_key(KeyCode::Tab).unwrap();
    app.on_key(KeyCode::Right).unwrap();
    app.on_key(KeyCode::Tab).unwrap();
    app.on_paste(" ~/.ssh/id\n");
    match app.on_key(KeyCode::Enter).unwrap() {
        SubmitResult::Save(request) => {
            assert_eq!(request.server.port, 22);
            assert_eq!(request.server.auth_type, AuthType::SshKey);
            assert_eq!(request.server.private_key.as_deref(), Some("~/.ssh/id"));
            assert!(request.server.keychain_service.is_none());
            assert!(request.password.is_none());
        }
        _ => panic!("expected a request"),
    }
}

#[test]
fn paste_strips_line_breaks_and_keeps_port_digits() {
    let mut app = app_with(&[]);
    app.on_key(KeyCode::Char('a')).unwrap();
    app.on_paste("web\r\n01");
    app.on_key(KeyCode::Tab).unwrap();
    app.on_key(KeyCode::Tab).unwrap();
    app.on_paste("a1b2\n");
    app.on_paste("\n\r");
    let lines = app.dialog_lines().unwrap();
    assert_eq!(lines[0], "  name: web01");
    assert_eq!(lines[2], "> port: 2212");
    app.on_key(KeyCode::Tab).unwrap();
    app.on_key(KeyCode::Tab).unwrap();
    app.on_paste("ignored");
    assert_eq!(app.dialog_lines().unwrap()[4], "> auth_type: password");
}

#[test]
fn required_trims_or_names_the_field() {
    assert_eq!(required("host", "  h ").unwrap(), "h");
    let err = required("host", " \t").unwrap_err();
    assert_eq!(err.message(), "host 不能为空");
}
