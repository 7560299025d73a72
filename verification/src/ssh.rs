//! Logging in to a saved account: which way to authenticate, and what to do
//! with each outcome of the interactive session's reads and writes. The
//! network, the keychain and the terminal are driven by the caller.
use vstd::prelude::*;
use vstd::string::StringExecFns;
use crate::accounts::{
    AuthType, ServerConfig, ServerConfigModel, keychain_account_of, keychain_service_of,
};
use crate::text::{decimal, decimal_string, push_char, trim, views};
use crate::ui::{FormModel, build_request};

verus! {

/// How to log in to an account.
#[derive(Debug, Clone)]
pub enum ConnectPlan {
    /// Read the password from the keychain entry (service, account) and
    /// authenticate with it over a new SSH session.
    KeychainPassword { service: String, account: String },
    /// Authenticate over a new SSH session with this private key file.
    PrivateKey { path: String },
    /// Hand over to the system `ssh` with these arguments.
    SystemSsh { args: Vec<String> },
}

pub enum ConnectPlanModel {
    KeychainPassword(Seq<char>, Seq<char>),
    PrivateKey(Seq<char>),
    SystemSsh(Seq<Seq<char>>),
}

impl View for ConnectPlan {
    type V = ConnectPlanModel;

    open spec fn view(&self) -> ConnectPlanModel {
        match self {
            ConnectPlan::KeychainPassword { service, account } => ConnectPlanModel::KeychainPassword(
                service@,
                account@,
            ),
            ConnectPlan::PrivateKey { path } => ConnectPlanModel::PrivateKey(path@),
            ConnectPlan::SystemSsh { args } => ConnectPlanModel::SystemSsh(views(args@)),
        }
    }
}

/// Password accounts use the keychain; key accounts use their private key
/// file, or without one the system `ssh -p <port> <username>@<host>`.
pub open spec fn connect_plan(s: ServerConfigModel) -> ConnectPlanModel {
    match s.auth_type {
        AuthType::Password => ConnectPlanModel::KeychainPassword(
            keychain_service_of(s),
            keychain_account_of(s),
        ),
        AuthType::SshKey => match s.private_key {
            Some(p) => ConnectPlanModel::PrivateKey(p),
            None => ConnectPlanModel::SystemSsh(
                seq![seq!['-', 'p'], decimal(s.port as nat), s.username + seq!['@'] + s.host],
            ),
        },
    }
}

/// Decides how to log in to `server`.
pub fn connect(server: &ServerConfig) -> (r: ConnectPlan)
    ensures
        r@ == connect_plan(server@),
{
    match server.auth_type {
        AuthType::Password => ConnectPlan::KeychainPassword {
            service: server.keychain_service(),
            account: server.keychain_account(),
        },
        AuthType::SshKey => match &server.private_key {
            Some(p) => ConnectPlan::PrivateKey { path: p.clone() },
            None => {
                let mut args: Vec<String> = Vec::new();
                let mut flag = String::new();
                push_char(&mut flag, '-');
                push_char(&mut flag, 'p');
                assert(flag@ =~= seq!['-', 'p']);
                let port = decimal_string(server.port as u64);
                let mut target = server.username.clone();
                push_char(&mut target, '@');
                target.append(server.host.as_str());
                assert(target@ =~= server.username@ + seq!['@'] + server.host@);
                let ghost words = seq![flag@, port@, target@];
                args.push(flag);
                args.push(port);
                args.push(target);
                assert(views(args@) =~= words);
                let r = ConnectPlan::SystemSsh { args };
                assert(r@ == connect_plan(server@));
                r
            },
        },
    }
}

/// Failures of an SSH session.
#[derive(Debug, Clone)]
pub enum SshError {
    /// The server did not accept the credentials.
    NotAuthenticated,
    /// The system `ssh` ended with a failure; `status` is how it ended.
    SystemSshFailed { status: String },
    /// Reading the remote shell's output failed.
    ReadOutput,
    /// Reading the remote shell's error output failed.
    ReadErrorOutput,
    /// The channel accepted no bytes.
    ChannelClosed,
    /// Writing to the channel failed.
    WriteFailed,
    /// The remote shell ended with a nonzero exit status.
    ExitStatus { code: i32 },
}

pub enum SshErrorModel {
    NotAuthenticated,
    SystemSshFailed(Seq<char>),
    ReadOutput,
    ReadErrorOutput,
    ChannelClosed,
    WriteFailed,
    ExitStatus(i32),
}

impl View for SshError {
    type V = SshErrorModel;

    open spec fn view(&self) -> SshErrorModel {
        match self {
            SshError::NotAuthenticated => SshErrorModel::NotAuthenticated,
            SshError::SystemSshFailed { status } => SshErrorModel::SystemSshFailed(status@),
            SshError::ReadOutput => SshErrorModel::ReadOutput,
            SshError::ReadErrorOutput => SshErrorModel::ReadErrorOutput,
            SshError::ChannelClosed => SshErrorModel::ChannelClosed,
            SshError::WriteFailed => SshErrorModel::WriteFailed,
            SshError::ExitStatus { code } => SshErrorModel::ExitStatus(*code),
        }
    }
}

/// The decimal rendering of a signed number.
pub open spec fn signed_decimal(n: int) -> Seq<char> {
    if n < 0 {
        seq!['-'] + decimal((-n) as nat)
    } else {
        decimal(n as nat)
    }
}

pub open spec fn ssh_error_message(e: SshErrorModel) -> Seq<char> {
    match e {
        SshErrorModel::NotAuthenticated => "ssh authentication did not complete"@,
        SshErrorModel::SystemSshFailed(s) => "system ssh exited with status "@ + s,
        SshErrorModel::ReadOutput => "failed to read remote shell output"@,
        SshErrorModel::ReadErrorOutput => "failed to read remote shell stderr"@,
        SshErrorModel::ChannelClosed => "ssh channel closed while writing"@,
        SshErrorModel::WriteFailed => "ssh channel write failed"@,
        SshErrorModel::ExitStatus(code) => "ssh session exited with status "@ + signed_decimal(
            code as int,
        ),
    }
}

/// The decimal rendering of an `i32`.
pub fn signed_decimal_string(n: i32) -> (r: String)
    ensures
        r@ == signed_decimal(n as int),
{
    if n < 0 {
        let m: i64 = 0 - (n as i64);
        let m: u64 = m as u64;
        let mut out = String::new();
        push_char(&mut out, '-');
        let d = decimal_string(m);
        out.append(d.as_str());
        out
    } else {
        decimal_string(n as u64)
    }
}

impl SshError {
    /// The message shown to the user.
    pub fn message(&self) -> (r: String)
        ensures
            r@ == ssh_error_message(self@),
    {
        match self {
            SshError::NotAuthenticated => String::from_str("ssh authentication did not complete"),
            SshError::SystemSshFailed { status } => {
                let mut out = String::from_str("system ssh exited with status ");
                out.append(status.as_str());
                out
            },
            SshError::ReadOutput => String::from_str("failed to read remote shell output"),
            SshError::ReadErrorOutput => String::from_str("failed to read remote shell stderr"),
            SshError::ChannelClosed => String::from_str("ssh channel closed while writing"),
            SshError::WriteFailed => String::from_str("ssh channel write failed"),
            SshError::ExitStatus { code } => {
                let d = signed_decimal_string(*code);
                let mut out = String::from_str("ssh session exited with status ");
                out.append(d.as_str());
                out
            },
        }
    }
}

/// A session must end authenticated.
pub fn check_authenticated(authenticated: bool) -> (r: Result<(), SshError>)
    ensures
        authenticated ==> r is Ok,
        !authenticated ==> (r matches Err(e) && e@ == SshErrorModel::NotAuthenticated),
{
    if authenticated {
        Ok(())
    } else {
        Err(SshError::NotAuthenticated)
    }
}

/// The system `ssh` must end successfully; `status` describes how it ended.
pub fn system_ssh_result(success: bool, status: String) -> (r: Result<(), SshError>)
    ensures
        success ==> r is Ok,
        !success ==> (r matches Err(e) && e@ == SshErrorModel::SystemSshFailed(status@)),
{
    if success {
        Ok(())
    } else {
        Err(SshError::SystemSshFailed { status })
    }
}

/// The remote shell's exit status decides the session's result; a status
/// that could not be read counts as 0.
pub fn exit_status_result(code: Option<i32>) -> (r: Result<(), SshError>)
    ensures
        match code {
            Some(c) if c != 0 => r matches Err(e) && e@ == SshErrorModel::ExitStatus(c),
            _ => r is Ok,
        },
{
    let status: i32 = match code {
        Some(c) => c,
        None => 0,
    };
    if status == 0 {
        Ok(())
    } else {
        Err(SshError::ExitStatus { code: status })
    }
}

/// What to do with one chunk read from the local terminal.
#[derive(Debug, Clone, Copy, PartialEq, Eq, Structural)]
pub enum InputStep {
    /// Send the chunk to the remote shell and take the next one.
    Forward,
    /// The terminal's input has ended: send end of file to the remote shell
    /// and take no more input this round.
    SendEof,
}

/// An empty chunk marks the end of the terminal's input; any other chunk of
/// `len` bytes is forwarded.
pub fn on_local_input(len: usize) -> (r: InputStep)
    ensures
        len == 0 ==> r == InputStep::SendEof,
        len > 0 ==> r == InputStep::Forward,
{
    if len == 0 {
        InputStep::SendEof
    } else {
        InputStep::Forward
    }
}

/// Whether the session goes on after a round of reads.
#[derive(Debug, Clone, Copy, PartialEq, Eq, Structural)]
pub enum RoundStep {
    /// Wait a moment, then poll again.
    Poll,
    /// Leave the loop and collect the exit status.
    Close,
}

/// After each round the session ends once the channel is at end of file.
pub fn after_round(at_eof: bool) -> (r: RoundStep)
    ensures
        at_eof ==> r == RoundStep::Close,
        !at_eof ==> r == RoundStep::Poll,
{
    if at_eof {
        RoundStep::Close
    } else {
        RoundStep::Poll
    }
}

/// Which of the remote shell's streams was read.
#[derive(Debug, Clone, Copy, PartialEq, Eq, Structural)]
pub enum RemoteStream {
    Output,
    ErrorOutput,
}

/// What a non-blocking read or write gave.
#[derive(Debug, Clone, Copy, PartialEq, Eq, Structural)]
pub enum IoOutcome {
    /// This many bytes (possibly zero).
    Bytes(usize),
    /// Nothing yet; try again later.
    WouldBlock,
    /// Any other error.
    Failed,
}

/// What to do after reading from the remote shell.
#[derive(Debug, Clone)]
pub enum ShellStep {
    /// Copy this many bytes to the local stream.
    Forward(usize),
    /// Nothing to do now.
    Wait,
    /// The remote side has finished.
    Finish,
    /// Give up with this error.
    Fail(SshError),
}

/// Output read: bytes are forwarded; zero bytes end the session once the
/// channel is at end of file; a would-block waits; an error fails the
/// session. Error output is the same except that zero bytes never end it.
pub fn on_remote_read(stream: RemoteStream, outcome: IoOutcome, at_eof: bool) -> (r: ShellStep)
    ensures
        match outcome {
            IoOutcome::Bytes(n) => if n > 0 {
                r matches ShellStep::Forward(m) && m == n
            } else if stream == RemoteStream::Output && at_eof {
                r is Finish
            } else {
                r is Wait
            },
            IoOutcome::WouldBlock => r is Wait,
            IoOutcome::Failed => r matches ShellStep::Fail(e) && e@ == (
            if stream == RemoteStream::Output {
                SshErrorModel::ReadOutput
            } else {
                SshErrorModel::ReadErrorOutput
            }),
        },
{
    match outcome {
        IoOutcome::Bytes(n) => {
            if n > 0 {
                ShellStep::Forward(n)
            } else if stream == RemoteStream::Output && at_eof {
                ShellStep::Finish
            } else {
                ShellStep::Wait
            }
        },
        IoOutcome::WouldBlock => ShellStep::Wait,
        IoOutcome::Failed => ShellStep::Fail(
            if stream == RemoteStream::Output {
                SshError::ReadOutput
            } else {
                SshError::ReadErrorOutput
            },
        ),
    }
}

/// What to do after one write of the remaining `remaining` bytes.
#[derive(Debug, Clone)]
pub enum WriteStep {
    /// This many bytes went out; continue with the rest.
    Advance(usize),
    /// Nothing went out yet; wait and try again.
    Retry,
    /// Give up with this error.
    Fail(SshError),
}

/// A write of part of a buffer: zero bytes means the channel closed; some
/// bytes advance; a would-block retries; an error fails.
pub fn on_channel_write(remaining: usize, outcome: IoOutcome) -> (r: WriteStep)
    requires
        remaining > 0,
        outcome matches IoOutcome::Bytes(n) ==> n <= remaining,
    ensures
        match outcome {
            IoOutcome::Bytes(n) => if n == 0 {
                r matches WriteStep::Fail(e) && e@ == SshErrorModel::ChannelClosed
            } else {
                r matches WriteStep::Advance(m) && m == n && 0 < m <= remaining
            },
            IoOutcome::WouldBlock => r is Retry,
            IoOutcome::Failed => r matches WriteStep::Fail(e) && e@ == SshErrorModel::WriteFailed,
        },
{
    match outcome {
        IoOutcome::Bytes(n) => {
            if n == 0 {
                WriteStep::Fail(SshError::ChannelClosed)
            } else {
                WriteStep::Advance(n)
            }
        },
        IoOutcome::WouldBlock => WriteStep::Retry,
        IoOutcome::Failed => WriteStep::Fail(SshError::WriteFailed),
    }
}

/// A password account is logged in to with the keychain entry it names: its
/// own service and account when it has them, `AshLogin` and
/// `username@name` (both trimmed) only when they are absent. A key account
/// uses its private key file, or without one the system `ssh` with its port
/// and `username@host`.
pub proof fn lemma_connect_uses_own_entry(s: ServerConfigModel)
    ensures
        s.auth_type == AuthType::Password ==> (connect_plan(s) matches ConnectPlanModel::KeychainPassword(
            service,
            account,
        ) && (s.keychain_service matches Some(v) ==> service == v) && (s.keychain_service is None
            ==> service == "AshLogin"@) && (s.keychain_account matches Some(a) ==> account == a)
            && (s.keychain_account is None && trim(s.username).len() > 0 && trim(s.name).len() > 0
            ==> account == trim(s.username) + seq!['@'] + trim(s.name))),
        s.auth_type == AuthType::SshKey ==> (match s.private_key {
            Some(p) => connect_plan(s) == ConnectPlanModel::PrivateKey(p),
            None => connect_plan(s) == ConnectPlanModel::SystemSsh(
                seq![seq!['-', 'p'], decimal(s.port as nat), s.username + seq!['@'] + s.host],
            ),
        }),
{
}

/// An account saved from the form with password authentication is logged in
/// to with the keychain entry the form named: the trimmed service and account
/// typed, or `AshLogin` and `username@name` where they were left blank.
pub proof fn lemma_saved_account_keychain(f: FormModel)
    requires
        f.auth_type == AuthType::Password,
        build_request(f) is Ok,
    ensures
        ({
            let server = build_request(f)->Ok_0.server;
            &&& connect_plan(server) matches ConnectPlanModel::KeychainPassword(service, account)
            &&& trim(f.keychain_service).len() > 0 ==> service == trim(f.keychain_service)
            &&& trim(f.keychain_service).len() == 0 ==> service == "AshLogin"@
            &&& trim(f.keychain_account).len() > 0 ==> account == trim(f.keychain_account)
            &&& trim(f.keychain_account).len() == 0 ==> account == trim(f.username) + seq!['@']
                + trim(f.name)
        }),
{
}

} // verus!
