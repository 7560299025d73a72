//! The configuration screen: a list of accounts with a cursor, and a form
//! that adds an account field by field. Keys and pasted text come in; the
//! screen's new state and what to do next come out. Drawing is left to the
//! caller, which reads the lines to show from [`App::list_items`] and
//! [`App::dialog_lines`].
use vstd::prelude::*;
use vstd::string::StringExecFns;
use crate::accounts::{
    AuthType, Config, ServerConfig, ServerConfigModel, default_account, default_account_exec,
    opt_view,
};
use crate::text::{
    all_digits, chars_of, decimal, digits_only, is_ascii_digit, is_blank, keep_digits, parse_u16,
    parse_u16_exec, pop_char, push_char, repeat_char, strip_line_breaks, strip_line_breaks_exec,
    trim, trimmed, views, digits_value,
};

verus! {

/// A key, as far as the screen tells keys apart.
#[derive(Debug, Clone, Copy, PartialEq, Eq, Structural)]
pub enum KeyCode {
    Char(char),
    Tab,
    BackTab,
    Up,
    Down,
    Left,
    Right,
    Enter,
    Backspace,
    Esc,
    /// Any other key; the screen ignores it.
    Other,
}

/// The fields of the add-account form.
#[derive(Debug, Clone, Copy, PartialEq, Eq, Structural)]
pub enum Field {
    Name,
    Host,
    Port,
    Username,
    AuthType,
    KeychainService,
    KeychainAccount,
    PrivateKey,
    Password,
}

/// One edit of the focused text field.
#[derive(Debug, Clone, Copy, PartialEq, Eq, Structural)]
pub enum TextEdit {
    /// Backspace: the last character goes.
    Pop,
    /// A typed character is appended.
    Push(char),
}

/// An account the form has put together, with the password to store for it.
#[derive(Debug, Clone)]
pub struct NewServerRequest {
    pub server: ServerConfig,
    pub password: Option<String>,
}

/// What the caller has to do after a key.
#[derive(Debug, Clone)]
pub enum SubmitResult {
    /// Nothing.
    NoAction,
    /// Store the new account.
    Save(NewServerRequest),
    /// Delete the account under the cursor.
    DeleteSelected,
}

/// Why the form refused to submit.
#[derive(Debug, Clone)]
pub enum FormError {
    /// The labelled field is blank.
    Required { label: String },
    /// The port is not a number from 0 to 65535.
    InvalidPort,
}

// ---------------------------------------------------------------------------
// Models.

pub struct FormModel {
    pub name: Seq<char>,
    pub host: Seq<char>,
    pub port: Seq<char>,
    pub username: Seq<char>,
    pub auth_type: AuthType,
    pub keychain_service: Seq<char>,
    pub keychain_account: Seq<char>,
    pub private_key: Seq<char>,
    pub password: Seq<char>,
    pub focus: nat,
}

pub struct AppModel {
    pub servers: Seq<ServerConfig>,
    pub status: Seq<char>,
    pub should_quit: bool,
    pub selected: nat,
    pub form: Option<FormModel>,
}

pub struct RequestModel {
    pub server: ServerConfigModel,
    pub password: Option<Seq<char>>,
}

pub enum SubmitModel {
    NoAction,
    Save(RequestModel),
    DeleteSelected,
}

pub enum FormErrorModel {
    Required(Seq<char>),
    InvalidPort,
}

impl View for FormError {
    type V = FormErrorModel;

    open spec fn view(&self) -> FormErrorModel {
        match self {
            FormError::Required { label } => FormErrorModel::Required(label@),
            FormError::InvalidPort => FormErrorModel::InvalidPort,
        }
    }
}

impl View for NewServerRequest {
    type V = RequestModel;

    open spec fn view(&self) -> RequestModel {
        RequestModel { server: self.server@, password: opt_view(self.password) }
    }
}

impl View for SubmitResult {
    type V = SubmitModel;

    open spec fn view(&self) -> SubmitModel {
        match self {
            SubmitResult::NoAction => SubmitModel::NoAction,
            SubmitResult::Save(r) => SubmitModel::Save(r@),
            SubmitResult::DeleteSelected => SubmitModel::DeleteSelected,
        }
    }
}

pub open spec fn submit_view(r: Result<SubmitResult, FormError>) -> Result<
    SubmitModel,
    FormErrorModel,
> {
    match r {
        Ok(s) => Ok(s@),
        Err(e) => Err(e@),
    }
}

pub open spec fn request_view(r: Result<NewServerRequest, FormError>) -> Result<
    RequestModel,
    FormErrorModel,
> {
    match r {
        Ok(s) => Ok(s@),
        Err(e) => Err(e@),
    }
}

pub open spec fn form_error_message(e: FormErrorModel) -> Seq<char> {
    match e {
        FormErrorModel::Required(label) => label + " 不能为空"@,
        FormErrorModel::InvalidPort => "port 必须是 1-65535 的数字"@,
    }
}

/// The status line of a new screen.
pub open spec fn list_status() -> Seq<char> {
    "配置模式: a 新增, d 删除, q 退出"@
}

/// The status line while the form is open.
pub open spec fn add_status() -> Seq<char> {
    "新增账号: Tab 切换字段, Enter 下一项/提交, Esc 取消"@
}

/// The status line after the form is dismissed.
pub open spec fn cancel_status() -> Seq<char> {
    "已取消新增账号"@
}

/// The placeholder shown when there is no account.
pub open spec fn empty_list_item() -> Seq<char> {
    "还没有账号，按 a 新增"@
}

// ---------------------------------------------------------------------------
// The form.

/// The fields shown for an authentication type, in order.
pub open spec fn fields_of(a: AuthType) -> Seq<Field> {
    let common = seq![Field::Name, Field::Host, Field::Port, Field::Username, Field::AuthType];
    match a {
        AuthType::Password => common + seq![
            Field::KeychainService,
            Field::KeychainAccount,
            Field::Password,
        ],
        AuthType::SshKey => common.push(Field::PrivateKey),
    }
}

pub open spec fn focus_ok(f: FormModel) -> bool {
    f.focus < fields_of(f.auth_type).len()
}

pub open spec fn current_field(f: FormModel) -> Field {
    fields_of(f.auth_type)[f.focus as int]
}

pub open spec fn field_text(f: FormModel, field: Field) -> Seq<char> {
    match field {
        Field::Name => f.name,
        Field::Host => f.host,
        Field::Port => f.port,
        Field::Username => f.username,
        Field::AuthType => Seq::empty(),
        Field::KeychainService => f.keychain_service,
        Field::KeychainAccount => f.keychain_account,
        Field::PrivateKey => f.private_key,
        Field::Password => f.password,
    }
}

pub open spec fn with_field_text(f: FormModel, field: Field, t: Seq<char>) -> FormModel {
    match field {
        Field::Name => FormModel { name: t, ..f },
        Field::Host => FormModel { host: t, ..f },
        Field::Port => FormModel { port: t, ..f },
        Field::Username => FormModel { username: t, ..f },
        Field::AuthType => f,
        Field::KeychainService => FormModel { keychain_service: t, ..f },
        Field::KeychainAccount => FormModel { keychain_account: t, ..f },
        Field::PrivateKey => FormModel { private_key: t, ..f },
        Field::Password => FormModel { password: t, ..f },
    }
}

pub open spec fn edited(t: Seq<char>, e: TextEdit) -> Seq<char> {
    match e {
        TextEdit::Pop => if t.len() > 0 {
            t.drop_last()
        } else {
            t
        },
        TextEdit::Push(c) => t.push(c),
    }
}

/// The edit applied to the focused field; the authentication selector holds no text.
pub open spec fn edit_form(f: FormModel, e: TextEdit) -> FormModel {
    let field = current_field(f);
    if field == Field::AuthType {
        f
    } else {
        with_field_text(f, field, edited(field_text(f, field), e))
    }
}

pub open spec fn toggled(a: AuthType) -> AuthType {
    match a {
        AuthType::Password => AuthType::SshKey,
        AuthType::SshKey => AuthType::Password,
    }
}

/// The other authentication type; the focus moves up if its field is gone.
pub open spec fn toggle_form(f: FormModel) -> FormModel {
    let a = toggled(f.auth_type);
    let max = (fields_of(a).len() - 1) as nat;
    FormModel {
        auth_type: a,
        focus: if f.focus < max {
            f.focus
        } else {
            max
        },
        ..f
    }
}

pub open spec fn default_form() -> FormModel {
    FormModel {
        name: Seq::empty(),
        host: Seq::empty(),
        port: "22"@,
        username: Seq::empty(),
        auth_type: AuthType::Password,
        keychain_service: Seq::empty(),
        keychain_account: Seq::empty(),
        private_key: Seq::empty(),
        password: Seq::empty(),
        focus: 0,
    }
}

/// `username@name` from the trimmed fields, or nothing if either is blank.
pub open spec fn derived_account(f: FormModel) -> Seq<char> {
    default_account(f.username, f.name)
}

/// What the form submits: required fields trimmed; a blank port means 22;
/// a password account gets a keychain service (default `AshLogin`) and
/// account (default `username@name`) and needs a password; a key account
/// keeps its private key path when one is given.
pub open spec fn build_request(f: FormModel) -> Result<RequestModel, FormErrorModel> {
    if trim(f.name).len() == 0 {
        Err(FormErrorModel::Required("name"@))
    } else if trim(f.host).len() == 0 {
        Err(FormErrorModel::Required("host"@))
    } else if trim(f.username).len() == 0 {
        Err(FormErrorModel::Required("username"@))
    } else {
        let port = if trim(f.port).len() == 0 {
            Some(22u16)
        } else {
            parse_u16(trim(f.port))
        };
        match port {
            None => Err(FormErrorModel::InvalidPort),
            Some(p) => {
                let base = ServerConfigModel {
                    name: trim(f.name),
                    host: trim(f.host),
                    port: p,
                    username: trim(f.username),
                    auth_type: f.auth_type,
                    keychain_service: None,
                    keychain_account: None,
                    private_key: None,
                };
                match f.auth_type {
                    AuthType::Password => {
                        let service = if trim(f.keychain_service).len() == 0 {
                            "AshLogin"@
                        } else {
                            trim(f.keychain_service)
                        };
                        let account = if trim(f.keychain_account).len() == 0 {
                            derived_account(f)
                        } else {
                            trim(f.keychain_account)
                        };
                        if trim(f.password).len() == 0 {
                            Err(FormErrorModel::Required("password"@))
                        } else {
                            Ok(
                                RequestModel {
                                    server: ServerConfigModel {
                                        keychain_service: Some(service),
                                        keychain_account: Some(account),
                                        ..base
                                    },
                                    password: Some(trim(f.password)),
                                },
                            )
                        }
                    },
                    AuthType::SshKey => Ok(
                        RequestModel {
                            server: ServerConfigModel {
                                private_key: if trim(f.private_key).len() > 0 {
                                    Some(trim(f.private_key))
                                } else {
                                    None
                                },
                                ..base
                            },
                            password: None,
                        },
                    ),
                }
            },
        }
    }
}

/// A key in the form: Tab/Down and BackTab/Up move the focus, Left/Right
/// and space switch the authentication type on its selector, Enter moves on
/// or, on the last field, submits, Backspace deletes, and a character is
/// typed into the focused field (only digits into the port).
pub open spec fn form_key(f: FormModel, key: KeyCode) -> (FormModel, Result<
    SubmitModel,
    FormErrorModel,
>) {
    let last = (fields_of(f.auth_type).len() - 1) as nat;
    let nothing = Ok::<SubmitModel, FormErrorModel>(SubmitModel::NoAction);
    match key {
        KeyCode::Tab | KeyCode::Down => (
            FormModel {
                focus: if f.focus + 1 < last {
                    (f.focus + 1) as nat
                } else {
                    last
                },
                ..f
            },
            nothing,
        ),
        KeyCode::BackTab | KeyCode::Up => (
            FormModel {
                focus: if f.focus == 0 {
                    0
                } else {
                    (f.focus - 1) as nat
                },
                ..f
            },
            nothing,
        ),
        KeyCode::Left | KeyCode::Right => (
            if current_field(f) == Field::AuthType {
                toggle_form(f)
            } else {
                f
            },
            nothing,
        ),
        KeyCode::Enter => if f.focus == last {
            (
                f,
                match build_request(f) {
                    Ok(r) => Ok(SubmitModel::Save(r)),
                    Err(e) => Err(e),
                },
            )
        } else {
            (FormModel { focus: (f.focus + 1) as nat, ..f }, nothing)
        },
        KeyCode::Backspace => (edit_form(f, TextEdit::Pop), nothing),
        KeyCode::Char(c) => if c == ' ' && current_field(f) == Field::AuthType {
            (toggle_form(f), nothing)
        } else if current_field(f) == Field::Port && !is_ascii_digit(c) {
            (f, nothing)
        } else {
            (edit_form(f, TextEdit::Push(c)), nothing)
        },
        _ => (f, nothing),
    }
}

/// Pasted text, without line breaks, appended to the focused field (only its
/// digits into the port).
pub open spec fn paste_form(f: FormModel, text: Seq<char>) -> FormModel {
    let n = strip_line_breaks(text);
    let field = current_field(f);
    if n.len() == 0 || field == Field::AuthType {
        f
    } else if field == Field::Port {
        with_field_text(f, field, f.port + keep_digits(n))
    } else {
        with_field_text(f, field, field_text(f, field) + n)
    }
}

pub open spec fn auth_name(a: AuthType) -> Seq<char> {
    match a {
        AuthType::Password => "password"@,
        AuthType::SshKey => "ssh_key"@,
    }
}

/// The text of one form row.
pub open spec fn field_body(f: FormModel, field: Field) -> Seq<char> {
    match field {
        Field::Name => "name: "@ + f.name,
        Field::Host => "host: "@ + f.host,
        Field::Port => "port: "@ + f.port,
        Field::Username => "username: "@ + f.username,
        Field::AuthType => "auth_type: "@ + auth_name(f.auth_type),
        Field::KeychainService => "keychain_service: "@ + (if trim(f.keychain_service).len()
            == 0 {
            "AshLogin"@
        } else {
            f.keychain_service
        }),
        Field::KeychainAccount => "keychain_account: "@ + (if trim(f.keychain_account).len()
            == 0 {
            derived_account(f)
        } else {
            f.keychain_account
        }),
        Field::PrivateKey => "private_key: "@ + f.private_key,
        Field::Password => "password: "@ + Seq::new(f.password.len(), |i: int| '*'),
    }
}

/// A form row, marked with `> ` when focused.
pub open spec fn field_line(f: FormModel, field: Field, focused: bool) -> Seq<char> {
    (if focused {
        seq!['>', ' ']
    } else {
        seq![' ', ' ']
    }) + field_body(f, field)
}

/// The rows of the form, one per field.
pub open spec fn dialog_lines_of(f: FormModel) -> Seq<Seq<char>> {
    Seq::new(
        fields_of(f.auth_type).len(),
        |i: int| field_line(f, fields_of(f.auth_type)[i], i == f.focus),
    )
}

/// The row for an account: `name  user@host:port  [auth]`.
pub open spec fn item_label(s: ServerConfig) -> Seq<char> {
    s.name@ + seq![' ', ' '] + s.username@ + seq!['@'] + s.host@ + seq![':'] + decimal(
        s.port as nat,
    ) + seq![' ', ' ', '['] + auth_name(s.auth_type) + seq![']']
}

/// The rows of the account list, or a placeholder when it is empty.
pub open spec fn list_items_of(servers: Seq<ServerConfig>) -> Seq<Seq<char>> {
    if servers.len() == 0 {
        seq![empty_list_item()]
    } else {
        servers.map_values(|s: ServerConfig| item_label(s))
    }
}

// ---------------------------------------------------------------------------
// The screen.

/// The cursor is on an account, or at 0 when there is none.
pub open spec fn selection_ok(v: AppModel) -> bool {
    (v.servers.len() == 0 && v.selected == 0) || v.selected < v.servers.len()
}

pub open spec fn move_down(v: AppModel) -> AppModel {
    if v.servers.len() > 0 {
        AppModel { selected: ((v.selected + 1) % v.servers.len()) as nat, ..v }
    } else {
        v
    }
}

pub open spec fn move_up(v: AppModel) -> AppModel {
    if v.servers.len() > 0 {
        AppModel {
            selected: if v.selected == 0 {
                (v.servers.len() - 1) as nat
            } else {
                (v.selected - 1) as nat
            },
            ..v
        }
    } else {
        v
    }
}

/// A key on the list: `q` quits, Down/`j` and Up/`k` move the cursor with
/// wrap-around, `a` opens an empty form, `d` asks to delete the selection.
pub open spec fn list_key(v: AppModel, key: KeyCode) -> (AppModel, Result<
    SubmitModel,
    FormErrorModel,
>) {
    let nothing = Ok::<SubmitModel, FormErrorModel>(SubmitModel::NoAction);
    match key {
        KeyCode::Char(c) => if c == 'q' {
            (AppModel { should_quit: true, ..v }, nothing)
        } else if c == 'j' {
            (move_down(v), nothing)
        } else if c == 'k' {
            (move_up(v), nothing)
        } else if c == 'a' {
            (AppModel { form: Some(default_form()), status: add_status(), ..v }, nothing)
        } else if c == 'd' {
            (v, Ok(SubmitModel::DeleteSelected))
        } else {
            (v, nothing)
        },
        KeyCode::Down => (move_down(v), nothing),
        KeyCode::Up => (move_up(v), nothing),
        _ => (v, nothing),
    }
}

/// The form closed and the status line set.
pub open spec fn close_form(v: AppModel, status: Seq<char>) -> AppModel {
    AppModel { form: None, status: status, ..v }
}

/// A key on the screen: in the form, Esc closes it and anything else goes to
/// the form; otherwise it goes to the list.
pub open spec fn app_key(v: AppModel, key: KeyCode) -> (AppModel, Result<
    SubmitModel,
    FormErrorModel,
>) {
    match v.form {
        None => list_key(v, key),
        Some(f) => if key == KeyCode::Esc {
            (close_form(v, cancel_status()), Ok(SubmitModel::NoAction))
        } else {
            let (f2, r) = form_key(f, key);
            (AppModel { form: Some(f2), ..v }, r)
        },
    }
}

// ---------------------------------------------------------------------------
// Executable code.

struct AddServerForm {
    name: String,
    host: String,
    port: String,
    username: String,
    auth_type: AuthType,
    keychain_service: String,
    keychain_account: String,
    private_key: String,
    password: String,
    focus: usize,
}

enum Mode {
    List,
    Add(AddServerForm),
}

impl AddServerForm {
    spec fn model(&self) -> FormModel {
        FormModel {
            name: self.name@,
            host: self.host@,
            port: self.port@,
            username: self.username@,
            auth_type: self.auth_type,
            keychain_service: self.keychain_service@,
            keychain_account: self.keychain_account@,
            private_key: self.private_key@,
            password: self.password@,
            focus: self.focus as nat,
        }
    }

    fn new_default() -> (r: Self)
        ensures
            r.model() == default_form(),
    {
        AddServerForm {
            name: String::new(),
            host: String::new(),
            port: String::from_str("22"),
            username: String::new(),
            auth_type: AuthType::Password,
            keychain_service: String::new(),
            keychain_account: String::new(),
            private_key: String::new(),
            password: String::new(),
            focus: 0,
        }
    }

    fn fields(&self) -> (r: Vec<Field>)
        ensures
            r@ == fields_of(self.auth_type),
    {
        let mut fields = vec![
            Field::Name,
            Field::Host,
            Field::Port,
            Field::Username,
            Field::AuthType,
        ];
        match self.auth_type {
            AuthType::Password => {
                fields.push(Field::KeychainService);
                fields.push(Field::KeychainAccount);
                fields.push(Field::Password);
            },
            AuthType::SshKey => fields.push(Field::PrivateKey),
        }
        assert(fields@ =~= fields_of(self.auth_type));
        fields
    }

    fn current(&self) -> (r: Field)
        requires
            focus_ok(self.model()),
        ensures
            r == current_field(self.model()),
    {
        let fields = self.fields();
        fields[self.focus]
    }

    fn toggle_auth_type(&mut self)
        ensures
            final(self).model() == toggle_form(old(self).model()),
            focus_ok(final(self).model()),
    {
        self.auth_type = match self.auth_type {
            AuthType::Password => AuthType::SshKey,
            AuthType::SshKey => AuthType::Password,
        };
        let max_focus = self.fields().len() - 1;
        if max_focus < self.focus {
            self.focus = max_focus;
        }
    }

    fn edit_current(&mut self, edit: TextEdit)
        requires
            focus_ok(old(self).model()),
        ensures
            final(self).model() == edit_form(old(self).model(), edit),
    {
        match self.current() {
            Field::Name => apply_edit(&mut self.name, edit),
            Field::Host => apply_edit(&mut self.host, edit),
            Field::Port => apply_edit(&mut self.port, edit),
            Field::Username => apply_edit(&mut self.username, edit),
            Field::KeychainService => apply_edit(&mut self.keychain_service, edit),
            Field::KeychainAccount => apply_edit(&mut self.keychain_account, edit),
            Field::PrivateKey => apply_edit(&mut self.private_key, edit),
            Field::Password => apply_edit(&mut self.password, edit),
            Field::AuthType => {},
        }
    }

    fn paste_current(&mut self, text: &str)
        requires
            focus_ok(old(self).model()),
        ensures
            final(self).model() == paste_form(old(self).model(), text@),
    {
        let normalized = strip_line_breaks_exec(text);
        if normalized.as_str().is_empty() {
            return;
        }
        match self.current() {
            Field::Name => self.name.append(normalized.as_str()),
            Field::Host => self.host.append(normalized.as_str()),
            Field::Port => {
                let digits = digits_only(normalized.as_str());
                self.port.append(digits.as_str());
            },
            Field::Username => self.username.append(normalized.as_str()),
            Field::KeychainService => self.keychain_service.append(normalized.as_str()),
            Field::KeychainAccount => self.keychain_account.append(normalized.as_str()),
            Field::PrivateKey => self.private_key.append(normalized.as_str()),
            Field::Password => self.password.append(normalized.as_str()),
            Field::AuthType => {},
        }
    }

    fn derived_keychain_account(&self) -> (r: String)
        ensures
            r@ == derived_account(self.model()),
    {
        default_account_exec(self.username.as_str(), self.name.as_str())
    }

    fn build_request(&self) -> (r: Result<NewServerRequest, FormError>)
        ensures
            request_view(r) == build_request(self.model()),
    {
        let name = match required("name", self.name.as_str()) {
            Ok(v) => v,
            Err(e) => return Err(e),
        };
        let host = match required("host", self.host.as_str()) {
            Ok(v) => v,
            Err(e) => return Err(e),
        };
        let username = match required("username", self.username.as_str()) {
            Ok(v) => v,
            Err(e) => return Err(e),
        };
        let port: u16 = if is_blank(self.port.as_str()) {
            22
        } else {
            let t = trimmed(self.port.as_str());
            match parse_u16_exec(t.as_str()) {
                Some(p) => p,
                None => return Err(FormError::InvalidPort),
            }
        };
        let mut request = NewServerRequest {
            server: ServerConfig {
                name,
                host,
                port,
                username,
                auth_type: self.auth_type,
                keychain_service: None,
                keychain_account: None,
                private_key: None,
            },
            password: None,
        };
        match self.auth_type {
            AuthType::Password => {
                let service = if is_blank(self.keychain_service.as_str()) {
                    String::from_str("AshLogin")
                } else {
                    trimmed(self.keychain_service.as_str())
                };
                request.server.keychain_service = Some(service);
                let account = if is_blank(self.keychain_account.as_str()) {
                    self.derived_keychain_account()
                } else {
                    trimmed(self.keychain_account.as_str())
                };
                request.server.keychain_account = Some(account);
                let password = match required("password", self.password.as_str()) {
                    Ok(v) => v,
                    Err(e) => return Err(e),
                };
                request.password = Some(password);
            },
            AuthType::SshKey => {
                if !is_blank(self.private_key.as_str()) {
                    request.server.private_key = Some(trimmed(self.private_key.as_str()));
                }
            },
        }
        Ok(request)
    }

    fn on_key(&mut self, key: KeyCode) -> (r: Result<SubmitResult, FormError>)
        requires
            focus_ok(old(self).model()),
        ensures
            final(self).model() == form_key(old(self).model(), key).0,
            submit_view(r) == form_key(old(self).model(), key).1,
            focus_ok(final(self).model()),
    {
        let fields = self.fields();
        let last = fields.len() - 1;
        match key {
            KeyCode::Tab | KeyCode::Down => {
                self.focus = if self.focus + 1 < last {
                    self.focus + 1
                } else {
                    last
                };
                Ok(SubmitResult::NoAction)
            },
            KeyCode::BackTab | KeyCode::Up => {
                if self.focus > 0 {
                    self.focus = self.focus - 1;
                }
                Ok(SubmitResult::NoAction)
            },
            KeyCode::Left | KeyCode::Right => {
                if fields[self.focus] == Field::AuthType {
                    self.toggle_auth_type();
                }
                Ok(SubmitResult::NoAction)
            },
            KeyCode::Enter => {
                if self.focus == last {
                    match self.build_request() {
                        Ok(request) => Ok(SubmitResult::Save(request)),
                        Err(e) => Err(e),
                    }
                } else {
                    self.focus = self.focus + 1;
                    Ok(SubmitResult::NoAction)
                }
            },
            KeyCode::Backspace => {
                self.edit_current(TextEdit::Pop);
                Ok(SubmitResult::NoAction)
            },
            KeyCode::Char(ch) => {
                if ch == ' ' && fields[self.focus] == Field::AuthType {
                    self.toggle_auth_type();
                } else if fields[self.focus] == Field::Port && !('0' <= ch && ch <= '9') {
                } else {
                    self.edit_current(TextEdit::Push(ch));
                }
                Ok(SubmitResult::NoAction)
            },
            _ => Ok(SubmitResult::NoAction),
        }
    }

    fn dialog_lines(&self) -> (r: Vec<String>)
        requires
            focus_ok(self.model()),
        ensures
            views(r@) == dialog_lines_of(self.model()),
    {
        let fields = self.fields();
        let mut lines: Vec<String> = Vec::new();
        let mut i: usize = 0;
        while i < fields.len()
            invariant
                i <= fields.len(),
                fields@ == fields_of(self.auth_type),
                views(lines@) == dialog_lines_of(self.model()).take(i as int),
            decreases fields.len() - i,
        {
            let line = self.field_line(fields[i], i == self.focus);
            let ghost before = views(lines@);
            lines.push(line);
            assert(views(lines@) =~= before.push(line@));
            assert(dialog_lines_of(self.model()).take(i + 1) =~= dialog_lines_of(self.model()).take(
                i as int,
            ).push(line@));
            i = i + 1;
        }
        assert(dialog_lines_of(self.model()).take(fields.len() as int) =~= dialog_lines_of(
            self.model(),
        ));
        lines
    }

    fn field_line(&self, field: Field, focused: bool) -> (r: String)
        ensures
            r@ == field_line(self.model(), field, focused),
    {
        let mut line = String::new();
        if focused {
            push_char(&mut line, '>');
            push_char(&mut line, ' ');
        } else {
            push_char(&mut line, ' ');
            push_char(&mut line, ' ');
        }
        let ghost prefix = line@;
        match field {
            Field::Name => {
                line.append("name: ");
                line.append(self.name.as_str());
            },
            Field::Host => {
                line.append("host: ");
                line.append(self.host.as_str());
            },
            Field::Port => {
                line.append("port: ");
                line.append(self.port.as_str());
            },
            Field::Username => {
                line.append("username: ");
                line.append(self.username.as_str());
            },
            Field::AuthType => {
                line.append("auth_type: ");
                line.append(auth_label(self.auth_type));
            },
            Field::KeychainService => {
                line.append("keychain_service: ");
                if is_blank(self.keychain_service.as_str()) {
                    line.append("AshLogin");
                } else {
                    line.append(self.keychain_service.as_str());
                }
            },
            Field::KeychainAccount => {
                line.append("keychain_account: ");
                if is_blank(self.keychain_account.as_str()) {
                    let d = self.derived_keychain_account();
                    line.append(d.as_str());
                } else {
                    line.append(self.keychain_account.as_str());
                }
            },
            Field::PrivateKey => {
                line.append("private_key: ");
                line.append(self.private_key.as_str());
            },
            Field::Password => {
                line.append("password: ");
                let n = chars_of(self.password.as_str()).len();
                let stars = repeat_char('*', n);
                line.append(stars.as_str());
            },
        }
        assert(line@ =~= field_line(self.model(), field, focused));
        line
    }
}

fn apply_edit(s: &mut String, edit: TextEdit)
    ensures
        final(s)@ == edited(old(s)@, edit),
{
    match edit {
        TextEdit::Pop => {
            pop_char(s);
        },
        TextEdit::Push(c) => push_char(s, c),
    }
}

fn auth_label(a: AuthType) -> (r: &'static str)
    ensures
        r@ == auth_name(a),
{
    match a {
        AuthType::Password => "password",
        AuthType::SshKey => "ssh_key",
    }
}

/// The trimmed value, or an error naming the field when it is blank.
pub fn required(label: &str, value: &str) -> (r: Result<String, FormError>)
    ensures
        trim(value@).len() == 0 ==> (r matches Err(e) && e@ == FormErrorModel::Required(label@)),
        trim(value@).len() > 0 ==> (r matches Ok(v) && v@ == trim(value@)),
{
    let t = trimmed(value);
    if t.as_str().is_empty() {
        Err(FormError::Required { label: String::from_str(label) })
    } else {
        Ok(t)
    }
}

impl FormError {
    /// The message shown in the status line.
    pub fn message(&self) -> (r: String)
        ensures
            r@ == form_error_message(self@),
    {
        match self {
            FormError::Required { label } => {
                let mut out = label.clone();
                out.append(" 不能为空");
                out
            },
            FormError::InvalidPort => String::from_str("port 必须是 1-65535 的数字"),
        }
    }
}

/// The configuration screen.
pub struct App {
    pub config: Config,
    pub status: String,
    pub should_quit: bool,
    selected: usize,
    mode: Mode,
}

impl View for App {
    type V = AppModel;

    closed spec fn view(&self) -> AppModel {
        AppModel {
            servers: self.config.servers@,
            status: self.status@,
            should_quit: self.should_quit,
            selected: self.selected_index(),
            form: self.form_model(),
        }
    }
}

impl App {
    /// The cursor position.
    pub closed spec fn selected_index(&self) -> nat {
        self.selected as nat
    }

    /// The open form, if any.
    pub closed spec fn form_model(&self) -> Option<FormModel> {
        match self.mode {
            Mode::List => None,
            Mode::Add(f) => Some(f.model()),
        }
    }

    /// What the screen's operations need: the cursor can move one step
    /// without overflow, and an open form focuses one of its fields.
    pub open spec fn wf(&self) -> bool {
        &&& self@.selected < usize::MAX
        &&& (self@.form matches Some(f) ==> focus_ok(f))
    }

    /// A fresh screen over the accounts: cursor at the top, no form open.
    pub fn new(config: Config) -> (r: Self)
        ensures
            r@ == (AppModel {
                servers: config.servers@,
                status: list_status(),
                should_quit: false,
                selected: 0,
                form: None,
            }),
            r.wf(),
    {
        App {
            config,
            status: String::from_str("配置模式: a 新增, d 删除, q 退出"),
            should_quit: false,
            selected: 0,
            mode: Mode::List,
        }
    }

    /// The accounts on the screen.
    pub fn config(&self) -> (r: &Config)
        ensures
            r.servers@ == self@.servers,
    {
        &self.config
    }

    /// The status line.
    pub fn status(&self) -> (r: &str)
        ensures
            r@ == self@.status,
    {
        self.status.as_str()
    }

    /// Whether the screen asked to close.
    pub fn should_quit(&self) -> (r: bool)
        ensures
            r == self@.should_quit,
    {
        self.should_quit
    }

    /// The cursor position.
    pub fn selected(&self) -> (r: usize)
        ensures
            r == self@.selected,
    {
        self.selected
    }

    /// Handles one key; see [`app_key`].
    pub fn on_key(&mut self, key: KeyCode) -> (r: Result<SubmitResult, FormError>)
        requires
            old(self).wf(),
        ensures
            final(self)@ == app_key(old(self)@, key).0,
            submit_view(r) == app_key(old(self)@, key).1,
            final(self).wf(),
    {
        let mut mode = Mode::List;
        std::mem::swap(&mut mode, &mut self.mode);
        match mode {
            Mode::List => self.on_list_key(key),
            Mode::Add(mut form) => {
                if key == KeyCode::Esc {
                    self.status = String::from_str("已取消新增账号");
                    return Ok(SubmitResult::NoAction);
                }
                let r = form.on_key(key);
                self.mode = Mode::Add(form);
                r
            },
        }
    }

    fn on_list_key(&mut self, key: KeyCode) -> (r: Result<SubmitResult, FormError>)
        requires
            old(self).wf(),
            old(self)@.form is None,
        ensures
            final(self)@ == list_key(old(self)@, key).0,
            submit_view(r) == list_key(old(self)@, key).1,
            final(self).wf(),
    {
        match key {
            KeyCode::Char('q') => {
                self.should_quit = true;
                Ok(SubmitResult::NoAction)
            },
            KeyCode::Down | KeyCode::Char('j') => {
                if self.config.servers.len() > 0 {
                    self.selected = (self.selected + 1) % self.config.servers.len();
                }
                Ok(SubmitResult::NoAction)
            },
            KeyCode::Up | KeyCode::Char('k') => {
                if self.config.servers.len() > 0 {
                    self.selected = if self.selected == 0 {
                        self.config.servers.len() - 1
                    } else {
                        self.selected - 1
                    };
                }
                Ok(SubmitResult::NoAction)
            },
            KeyCode::Char('a') => {
                self.mode = Mode::Add(AddServerForm::new_default());
                self.status = String::from_str(
                    "新增账号: Tab 切换字段, Enter 下一项/提交, Esc 取消",
                );
                Ok(SubmitResult::NoAction)
            },
            KeyCode::Char('d') => Ok(SubmitResult::DeleteSelected),
            _ => Ok(SubmitResult::NoAction),
        }
    }

    /// Pasted text goes to the focused field of the open form, if any.
    pub fn on_paste(&mut self, text: &str)
        requires
            old(self).wf(),
        ensures
            final(self)@ == (match old(self)@.form {
                Some(f) => AppModel { form: Some(paste_form(f, text@)), ..old(self)@ },
                None => old(self)@,
            }),
            final(self).wf(),
    {
        let mut mode = Mode::List;
        std::mem::swap(&mut mode, &mut self.mode);
        match mode {
            Mode::List => {},
            Mode::Add(mut form) => {
                form.paste_current(text);
                self.mode = Mode::Add(form);
            },
        }
    }

    /// Appends an account and puts the cursor on it.
    pub fn add_server(&mut self, server: ServerConfig)
        ensures
            final(self)@ == (AppModel {
                servers: old(self)@.servers.push(server),
                selected: old(self)@.servers.len(),
                ..old(self)@
            }),
            old(self).wf() ==> final(self).wf(),
    {
        self.config.servers.push(server);
        self.selected = self.config.servers.len() - 1;
    }

    /// Removes the account under the cursor and returns it; the cursor stays
    /// put, or moves up when it was on the last account.
    pub fn remove_selected_server(&mut self) -> (r: Option<ServerConfig>)
        requires
            old(self)@.servers.len() > 0 ==> old(self)@.selected < old(self)@.servers.len(),
        ensures
            old(self)@.servers.len() == 0 ==> r is None && final(self)@ == old(self)@,
            old(self)@.servers.len() > 0 ==> ({
                let rest = old(self)@.servers.remove(old(self)@.selected as int);
                &&& r == Some(old(self)@.servers[old(self)@.selected as int])
                &&& final(self)@ == (AppModel {
                    servers: rest,
                    selected: if rest.len() == 0 {
                        0
                    } else if old(self)@.selected >= rest.len() {
                        (rest.len() - 1) as nat
                    } else {
                        old(self)@.selected
                    },
                    ..old(self)@
                })
            }),
            old(self).wf() ==> final(self).wf(),
    {
        if self.config.servers.len() == 0 {
            return None;
        }
        let removed = self.config.servers.remove(self.selected);
        if self.selected >= self.config.servers.len() && self.config.servers.len() > 0 {
            self.selected = self.config.servers.len() - 1;
        } else if self.config.servers.len() == 0 {
            self.selected = 0;
        }
        Some(removed)
    }

    /// Closes the form after the account was stored, with a message.
    pub fn complete_add(&mut self, message: String)
        ensures
            final(self)@ == close_form(old(self)@, message@),
            old(self).wf() ==> final(self).wf(),
    {
        self.mode = Mode::List;
        self.status = message;
    }

    /// Closes the form without storing anything.
    pub fn cancel_add(&mut self)
        ensures
            final(self)@ == close_form(old(self)@, cancel_status()),
            old(self).wf() ==> final(self).wf(),
    {
        self.mode = Mode::List;
        self.status = String::from_str("已取消新增账号");
    }

    /// The rows of the account list.
    pub fn list_items(&self) -> (r: Vec<String>)
        ensures
            views(r@) == list_items_of(self@.servers),
    {
        let mut items: Vec<String> = Vec::new();
        if self.config.servers.len() == 0 {
            items.push(String::from_str("还没有账号，按 a 新增"));
            assert(views(items@) =~= list_items_of(self@.servers));
            return items;
        }
        let mut i: usize = 0;
        while i < self.config.servers.len()
            invariant
                i <= self.config.servers.len(),
                self.config.servers.len() > 0,
                views(items@) == self.config.servers@.take(i as int).map_values(
                    |s: ServerConfig| item_label(s),
                ),
            decreases self.config.servers.len() - i,
        {
            let label = server_item_label(&self.config.servers[i]);
            let ghost before = views(items@);
            items.push(label);
            assert(views(items@) =~= before.push(label@));
            assert(views(items@) =~= self.config.servers@.take(i + 1).map_values(
                |s: ServerConfig| item_label(s),
            ));
            i = i + 1;
        }
        assert(self.config.servers@.take(i as int) =~= self.config.servers@);
        items
    }

    /// The row to highlight: the cursor, unless the list is empty.
    pub fn highlighted(&self) -> (r: Option<usize>)
        ensures
            r == (if self@.servers.len() == 0 {
                None
            } else {
                Some(self@.selected as usize)
            }),
    {
        if self.config.servers.len() == 0 {
            None
        } else {
            Some(self.selected)
        }
    }

    /// The rows of the open form, if any.
    pub fn dialog_lines(&self) -> (r: Option<Vec<String>>)
        requires
            self.wf(),
        ensures
            match self@.form {
                Some(f) => r matches Some(v) && views(v@) == dialog_lines_of(f),
                None => r is None,
            },
    {
        match &self.mode {
            Mode::List => None,
            Mode::Add(form) => Some(form.dialog_lines()),
        }
    }

    /// The focused row of the open form, if any.
    pub fn dialog_focus(&self) -> (r: Option<usize>)
        ensures
            match self@.form {
                Some(f) => r == Some(f.focus as usize),
                None => r is None,
            },
    {
        match &self.mode {
            Mode::List => None,
            Mode::Add(form) => Some(form.focus),
        }
    }
}

/// The row for an account in the list.
pub fn server_item_label(s: &ServerConfig) -> (r: String)
    ensures
        r@ == item_label(*s),
{
    let mut out = s.name.clone();
    push_char(&mut out, ' ');
    push_char(&mut out, ' ');
    out.append(s.username.as_str());
    push_char(&mut out, '@');
    out.append(s.host.as_str());
    push_char(&mut out, ':');
    let p = crate::text::decimal_string(s.port as u64);
    out.append(p.as_str());
    push_char(&mut out, ' ');
    push_char(&mut out, ' ');
    push_char(&mut out, '[');
    out.append(auth_label(s.auth_type));
    push_char(&mut out, ']');
    assert(out@ =~= item_label(*s));
    out
}

} // verus!

verus! {

// ---------------------------------------------------------------------------
// Laws of the screen.

/// No key takes the cursor off the list: if it is on an account (or at 0 on
/// an empty list) before a key, it is after.
pub proof fn lemma_key_keeps_selection(v: AppModel, key: KeyCode)
    requires
        selection_ok(v),
    ensures
        selection_ok(app_key(v, key).0),
{
}

/// Adding an account and removing the selection leaves the cursor on the
/// list too.
pub proof fn lemma_add_remove_keep_selection(v: AppModel, s: ServerConfig)
    requires
        selection_ok(v),
    ensures
        selection_ok(AppModel { servers: v.servers.push(s), selected: v.servers.len(), ..v }),
        v.servers.len() > 0 ==> ({
            let rest = v.servers.remove(v.selected as int);
            selection_ok(
                AppModel {
                    servers: rest,
                    selected: if rest.len() == 0 {
                        0
                    } else if v.selected >= rest.len() {
                        (rest.len() - 1) as nat
                    } else {
                        v.selected
                    },
                    ..v
                },
            )
        }),
{
}

/// Removing the account that was just added gives it back and restores the
/// list: `remove_selected_server` undoes `add_server`.
pub proof fn lemma_remove_undoes_add(servers: Seq<ServerConfig>, s: ServerConfig)
    ensures
        servers.push(s)[servers.len() as int] == s,
        servers.push(s).remove(servers.len() as int) == servers,
{
    assert(servers.push(s).remove(servers.len() as int) =~= servers);
}

/// Moving the cursor down and then up returns it where it was.
pub proof fn lemma_up_undoes_down(v: AppModel)
    requires
        selection_ok(v),
    ensures
        move_up(move_down(v)) == v,
{
    if v.servers.len() > 0 {
        let n = v.servers.len();
        if v.selected + 1 == n {
            assert((v.selected + 1) % n == 0) by (nonlinear_arith)
                requires
                    v.selected + 1 == n,
                    n > 0,
            ;
        } else {
            assert((v.selected + 1) % n == v.selected + 1) by (nonlinear_arith)
                requires
                    0 <= v.selected + 1 < n,
            ;
        }
    }
}

/// Every key in the form keeps the focus on one of its fields.
pub proof fn lemma_form_key_keeps_focus(f: FormModel, key: KeyCode)
    requires
        focus_ok(f),
    ensures
        focus_ok(form_key(f, key).0),
{
}

/// Switching the authentication type twice gives back the same form, when
/// the focus is on a field that both types show.
pub proof fn lemma_toggle_twice(f: FormModel)
    requires
        f.focus < 6,
    ensures
        toggle_form(toggle_form(f)) == f,
{
}

/// Esc in the form closes it and changes nothing but the status line.
pub proof fn lemma_escape_cancels(v: AppModel)
    requires
        v.form is Some,
    ensures
        app_key(v, KeyCode::Esc).0 == close_form(v, cancel_status()),
        app_key(v, KeyCode::Esc).0.servers == v.servers,
        app_key(v, KeyCode::Esc).1 == Ok::<SubmitModel, FormErrorModel>(SubmitModel::NoAction),
{
}

/// A request the form submits never has a blank name, host or user, and a
/// password account always carries a non-blank password and a keychain
/// service and account.
pub proof fn lemma_request_complete(f: FormModel)
    requires
        build_request(f) is Ok,
    ensures
        ({
            let r = build_request(f)->Ok_0;
            &&& r.server.name.len() > 0
            &&& r.server.host.len() > 0
            &&& r.server.username.len() > 0
            &&& r.server.auth_type == f.auth_type
            &&& (f.auth_type == AuthType::Password ==> {
                &&& r.password matches Some(p) && p.len() > 0
                &&& r.server.keychain_service is Some
                &&& r.server.keychain_account is Some
                &&& r.server.private_key is None
            })
            &&& (f.auth_type == AuthType::SshKey ==> r.password is None)
        }),
{
}

} // verus!

verus! {

proof fn lemma_keep_digits_all_digits(s: Seq<char>)
    ensures
        all_digits(keep_digits(s)),
    decreases s.len(),
{
    if s.len() > 0 {
        lemma_keep_digits_all_digits(s.drop_last());
        let k = keep_digits(s);
        let p = keep_digits(s.drop_last());
        if is_ascii_digit(s.last()) {
            assert forall|i: int| 0 <= i < k.len() implies is_ascii_digit(#[trigger] k[i]) by {
                if i < p.len() {
                    assert(k[i] == p[i]);
                }
            }
        }
    }
}

/// The port field only ever holds ASCII digits: the form starts with `22`,
/// takes only digits when typed or pasted into it, and Backspace removes one.
pub proof fn lemma_port_stays_digits(f: FormModel, key: KeyCode, text: Seq<char>)
    requires
        focus_ok(f),
        all_digits(f.port),
    ensures
        all_digits(form_key(f, key).0.port),
        all_digits(paste_form(f, text).port),
        all_digits(default_form().port),
{
    reveal_strlit("22");
    let n = strip_line_breaks(text);
    lemma_keep_digits_all_digits(n);
    let joined = f.port + keep_digits(n);
    assert forall|i: int| 0 <= i < joined.len() implies is_ascii_digit(#[trigger] joined[i]) by {
        if i < f.port.len() {
            assert(joined[i] == f.port[i]);
        } else {
            assert(joined[i] == keep_digits(n)[i - f.port.len()]);
        }
    }
    match key {
        KeyCode::Char(c) => {
            let pushed = f.port.push(c);
            if is_ascii_digit(c) {
                assert forall|i: int| 0 <= i < pushed.len() implies is_ascii_digit(
                    #[trigger] pushed[i],
                ) by {
                    if i < f.port.len() {
                        assert(pushed[i] == f.port[i]);
                    }
                }
            }
        },
        KeyCode::Backspace => {
            if f.port.len() > 0 {
                let d = f.port.drop_last();
                assert forall|i: int| 0 <= i < d.len() implies is_ascii_digit(#[trigger] d[i]) by {
                    assert(d[i] == f.port[i]);
                }
            }
        },
        _ => {},
    }
}

/// Moving the cursor up and then down returns it where it was.
pub proof fn lemma_down_undoes_up(v: AppModel)
    requires
        selection_ok(v),
    ensures
        move_down(move_up(v)) == v,
{
    if v.servers.len() > 0 {
        let n = v.servers.len();
        if v.selected == 0 {
            assert(n % n == 0) by (nonlinear_arith)
                requires
                    n > 0,
            ;
            assert(((n - 1) as nat + 1) % n == 0);
        } else {
            assert(v.selected % n == v.selected) by (nonlinear_arith)
                requires
                    0 <= v.selected < n,
            ;
            assert(((v.selected - 1) as nat + 1) % n == v.selected);
        }
    }
}

/// On the list, Down and `j` move the cursor to the next account and Up and
/// `k` to the previous one, both wrapping around; the accounts stay as they
/// are and nothing is submitted.
pub proof fn lemma_list_navigation(v: AppModel)
    requires
        v.form is None,
        v.selected < v.servers.len(),
    ensures
        ({
            let n = v.servers.len() as int;
            let s = v.selected as int;
            let nothing = Ok::<SubmitModel, FormErrorModel>(SubmitModel::NoAction);
            &&& app_key(v, KeyCode::Down).0.selected == (s + 1) % n
            &&& app_key(v, KeyCode::Char('j')) == app_key(v, KeyCode::Down)
            &&& app_key(v, KeyCode::Up).0.selected == (s + n - 1) % n
            &&& app_key(v, KeyCode::Char('k')) == app_key(v, KeyCode::Up)
            &&& app_key(v, KeyCode::Down).0.servers == v.servers
            &&& app_key(v, KeyCode::Up).0.servers == v.servers
            &&& app_key(v, KeyCode::Down).1 == nothing
            &&& app_key(v, KeyCode::Up).1 == nothing
        }),
{
    let n = v.servers.len() as int;
    let s = v.selected as int;
    if s == 0 {
        assert((s + n - 1) % n == n - 1) by (nonlinear_arith)
            requires
                s == 0,
                n > 0,
        ;
    } else {
        assert((s + n - 1) % n == s - 1) by (nonlinear_arith)
            requires
                0 < s < n,
        ;
    }
}

/// In the form, Tab and Down move the focus to the next field and BackTab
/// and Up to the previous one, stopping at either end; Enter moves to the
/// next field, and on the last one submits what `build_request` builds while
/// the form stays as it is. Every key but Esc keeps the form open with the
/// focus on one of its fields.
pub proof fn lemma_form_navigation(v: AppModel, key: KeyCode)
    requires
        v.form matches Some(f) && focus_ok(f),
    ensures
        ({
            let f = v.form->Some_0;
            let last = fields_of(f.auth_type).len() - 1;
            let (w, r) = app_key(v, key);
            &&& key != KeyCode::Esc ==> (w.form matches Some(g) && focus_ok(g))
            &&& w.servers == v.servers
            &&& (key == KeyCode::Tab || key == KeyCode::Down) ==> w.form == Some(
                FormModel { focus: if f.focus + 1 < last { (f.focus + 1) as nat } else { last as nat }, ..f },
            )
            &&& (key == KeyCode::BackTab || key == KeyCode::Up) ==> w.form == Some(
                FormModel { focus: if f.focus == 0 { 0 } else { (f.focus - 1) as nat }, ..f },
            )
            &&& (key == KeyCode::Enter && f.focus < last) ==> w.form == Some(
                FormModel { focus: f.focus + 1, ..f },
            ) && r == Ok::<SubmitModel, FormErrorModel>(SubmitModel::NoAction)
            &&& (key == KeyCode::Enter && f.focus == last) ==> w.form == Some(f) && r == (match build_request(f) {
                Ok(q) => Ok(SubmitModel::Save(q)),
                Err(e) => Err(e),
            })
        }),
{
}

/// Switching the authentication type picks the other one, keeps every text
/// the user typed, and keeps the focus unless its field is gone, in which
/// case it moves to the new last field; switching back restores the type.
/// Left, Right and space on the selector switch it.
pub proof fn lemma_toggle_auth(v: AppModel, key: KeyCode)
    requires
        v.form matches Some(f) && focus_ok(f) && current_field(f) == Field::AuthType,
        key == KeyCode::Left || key == KeyCode::Right || key == KeyCode::Char(' '),
    ensures
        ({
            let f = v.form->Some_0;
            let g = toggle_form(f);
            let last = fields_of(g.auth_type).len() - 1;
            &&& app_key(v, key).0.form == Some(g)
            &&& g.auth_type != f.auth_type
            &&& toggled(g.auth_type) == f.auth_type
            &&& g.focus == if f.focus < last { f.focus } else { last as nat }
            &&& g.name == f.name && g.host == f.host && g.port == f.port
            &&& g.username == f.username && g.keychain_service == f.keychain_service
            &&& g.keychain_account == f.keychain_account && g.private_key == f.private_key
            &&& g.password == f.password
        }),
{
}

/// The port of a submitted request is the one typed: 22 when the port text
/// is blank, otherwise the number its digits spell. A form whose required
/// fields are filled in and whose port is a number up to 65535 is submitted
/// with that port; a port text with anything but digits (after an optional
/// leading `+`) is refused as invalid.
pub proof fn lemma_request_port(f: FormModel)
    ensures
        ({
            let t = trim(f.port);
            let filled = trim(f.name).len() > 0 && trim(f.host).len() > 0 && trim(f.username).len()
                > 0;
            &&& build_request(f) matches Ok(r) ==> (t.len() == 0 ==> r.server.port == 22)
            &&& build_request(f) matches Ok(r) ==> (t.len() > 0 && all_digits(t) ==> r.server.port
                as nat == digits_value(t))
            &&& (filled && (f.auth_type == AuthType::SshKey || trim(f.password).len() > 0)
                && t.len() > 0 && all_digits(t) && digits_value(t) <= 65535) ==> (build_request(
                f,
            ) matches Ok(r) && r.server.port as nat == digits_value(t))
            &&& (filled && t.len() > 0 && t[0] != '+' && !all_digits(t)) ==> build_request(f)
                == Err::<RequestModel, FormErrorModel>(FormErrorModel::InvalidPort)
        }),
{
    let t = trim(f.port);
    if t.len() > 0 && all_digits(t) {
        assert(t[0] != '+');
    }
}

} // verus!
