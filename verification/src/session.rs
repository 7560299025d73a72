//! The decisions of a login run between its outside steps: picking a server
//! without a prompt, checking that `sshpass` is there, trusting the host key,
//! and reading what `ssh-keyscan` returned.
use vstd::prelude::*;
use vstd::slice::slice_to_vec;
use vstd::string::StringExecFns;
use crate::config::{ArgModel, Config, OsArg, Server, arg_views, spec_menu_label};
use crate::paths::{display_path, path_text};
use crate::error::surround;
use crate::text::{decimal, decimal_string, push_char, trim, trimmed, views};

verus! {

/// Why a login run stops.
#[derive(Debug, Clone)]
pub enum LaunchError {
    /// Several servers and no terminal to choose among them.
    MultipleServers,
    /// The server needs `sshpass`, which is not installed.
    SshpassMissing { name: String },
    /// The host key is unknown and there is no terminal to confirm it.
    HostNotPresent { lookup: String, known_hosts: String },
    /// The user declined to trust the host key.
    HostNotConfirmed { lookup: String },
    /// `ssh-keyscan` failed; `stderr` is what it printed, trimmed.
    KeyscanFailed { host: String, stderr: String },
    /// `ssh-keyscan` printed no key.
    KeyscanEmpty { host: String },
}

pub enum LaunchErrorModel {
    MultipleServers,
    SshpassMissing(Seq<char>),
    HostNotPresent(Seq<char>, Seq<char>),
    HostNotConfirmed(Seq<char>),
    KeyscanFailed(Seq<char>, Seq<char>),
    KeyscanEmpty(Seq<char>),
}

impl View for LaunchError {
    type V = LaunchErrorModel;

    open spec fn view(&self) -> LaunchErrorModel {
        match self {
            LaunchError::MultipleServers => LaunchErrorModel::MultipleServers,
            LaunchError::SshpassMissing { name } => LaunchErrorModel::SshpassMissing(name@),
            LaunchError::HostNotPresent { lookup, known_hosts } => LaunchErrorModel::HostNotPresent(
                lookup@,
                known_hosts@,
            ),
            LaunchError::HostNotConfirmed { lookup } => LaunchErrorModel::HostNotConfirmed(lookup@),
            LaunchError::KeyscanFailed { host, stderr } => LaunchErrorModel::KeyscanFailed(
                host@,
                stderr@,
            ),
            LaunchError::KeyscanEmpty { host } => LaunchErrorModel::KeyscanEmpty(host@),
        }
    }
}

pub open spec fn launch_error_message(e: LaunchErrorModel) -> Seq<char> {
    match e {
        LaunchErrorModel::MultipleServers => "multiple servers are configured. use `ashlogin --list` or `ashlogin <name>` in non-interactive environments"@,
        LaunchErrorModel::SshpassMissing(name) => "server `"@ + name
            + "` uses password auth, but `sshpass` was not found in PATH"@,
        LaunchErrorModel::HostNotPresent(lookup, path) => "host `"@ + lookup + "` is not present in "@
            + path + ". run interactively once to confirm and save its host key"@,
        LaunchErrorModel::HostNotConfirmed(lookup) => "aborted because host `"@ + lookup
            + "` is not trusted yet"@,
        LaunchErrorModel::KeyscanFailed(host, stderr) => "failed to fetch host key for `"@ + host
            + "`: "@ + stderr,
        LaunchErrorModel::KeyscanEmpty(host) => "ssh-keyscan returned no host key data for `"@
            + host + "`"@,
    }
}

impl LaunchError {
    /// The message shown to the user.
    pub fn message(&self) -> (r: String)
        ensures
            r@ == launch_error_message(self@),
    {
        match self {
            LaunchError::MultipleServers => String::from_str(
                "multiple servers are configured. use `ashlogin --list` or `ashlogin <name>` in non-interactive environments",
            ),
            LaunchError::SshpassMissing { name } => surround(
                "server `",
                name.as_str(),
                "` uses password auth, but `sshpass` was not found in PATH",
            ),
            LaunchError::HostNotPresent { lookup, known_hosts } => {
                let mut out = surround("host `", lookup.as_str(), "` is not present in ");
                out.append(known_hosts.as_str());
                out.append(". run interactively once to confirm and save its host key");
                out
            },
            LaunchError::HostNotConfirmed { lookup } => surround(
                "aborted because host `",
                lookup.as_str(),
                "` is not trusted yet",
            ),
            LaunchError::KeyscanFailed { host, stderr } => {
                let mut out = surround("failed to fetch host key for `", host.as_str(), "`: ");
                out.append(stderr.as_str());
                out
            },
            LaunchError::KeyscanEmpty { host } => surround(
                "ssh-keyscan returned no host key data for `",
                host.as_str(),
                "`",
            ),
        }
    }
}

/// Which server to log in to when none was named: the only one, without a
/// prompt; with several, the user must choose, which needs a terminal.
/// `Ok(None)` asks the caller to prompt.
pub fn select_without_prompt(config: &Config, interactive: bool) -> (r: Result<
    Option<usize>,
    LaunchError,
>)
    ensures
        config.servers@.len() == 1 ==> r == Ok::<Option<usize>, LaunchError>(Some(0)),
        config.servers@.len() != 1 && !interactive ==> (r matches Err(e) && e@
            == LaunchErrorModel::MultipleServers),
        config.servers@.len() != 1 && interactive ==> r == Ok::<Option<usize>, LaunchError>(None),
{
    if config.servers.len() == 1 {
        Ok(Some(0))
    } else if !interactive {
        Err(LaunchError::MultipleServers)
    } else {
        Ok(None)
    }
}

/// The picker's entries, one per server.
pub fn menu_labels(config: &Config) -> (r: Vec<String>)
    ensures
        views(r@) == config.servers@.map_values(|s: Server| spec_menu_label(s)),
{
    let mut labels: Vec<String> = Vec::new();
    let mut i: usize = 0;
    while i < config.servers.len()
        invariant
            i <= config.servers.len(),
            views(labels@) == config.servers@.take(i as int).map_values(
                |s: Server| spec_menu_label(s),
            ),
        decreases config.servers.len() - i,
    {
        let label = config.servers[i].menu_label();
        let ghost before = views(labels@);
        labels.push(label);
        assert(views(labels@) =~= before.push(label@));
        assert(views(labels@) =~= config.servers@.take(i + 1).map_values(
            |s: Server| spec_menu_label(s),
        ));
        i = i + 1;
    }
    assert(config.servers@.take(i as int) =~= config.servers@);
    labels
}

/// A password server needs `sshpass`; `sshpass_found` is whether it runs.
pub fn check_runtime_requirements(server: &Server, sshpass_found: bool) -> (r: Result<
    (),
    LaunchError,
>)
    ensures
        server.password is Some && !sshpass_found ==> (r matches Err(e) && e@
            == LaunchErrorModel::SshpassMissing(server.name@)),
        !(server.password is Some && !sshpass_found) ==> r is Ok,
{
    if server.uses_password_auth() && !sshpass_found {
        Err(LaunchError::SshpassMissing { name: server.name.clone() })
    } else {
        Ok(())
    }
}

/// What to do about a host key.
#[derive(Debug, Clone)]
pub enum KnownHostStep {
    /// The key is already known.
    Trusted,
    /// Ask the user with this prompt, then call [`confirmation_result`].
    Confirm { prompt: String },
    /// Stop with this error.
    Refuse(LaunchError),
}

/// A known key is trusted; an unknown one needs the user's confirmation,
/// which needs a terminal.
pub fn known_host_check(lookup: &str, known_hosts: &[u8], present: bool, interactive: bool) -> (r:
    KnownHostStep)
    ensures
        present ==> r is Trusted,
        !present && !interactive ==> (r matches KnownHostStep::Refuse(e) && e@
            == LaunchErrorModel::HostNotPresent(lookup@, path_text(known_hosts@))),
        !present && interactive ==> (r matches KnownHostStep::Confirm { prompt } && prompt@
            == "Host `"@ + lookup@ + "` is not trusted yet. Fetch its SSH host key and save it to "@
            + path_text(known_hosts@) + "?"@),
{
    if present {
        return KnownHostStep::Trusted;
    }
    let shown = display_path(known_hosts);
    if !interactive {
        return KnownHostStep::Refuse(
            LaunchError::HostNotPresent { lookup: String::from_str(lookup), known_hosts: shown },
        );
    }
    let mut prompt = surround(
        "Host `",
        lookup,
        "` is not trusted yet. Fetch its SSH host key and save it to ",
    );
    prompt.append(shown.as_str());
    prompt.append("?");
    KnownHostStep::Confirm { prompt }
}

/// The user's answer to the host key prompt.
pub fn confirmation_result(lookup: &str, confirmed: bool) -> (r: Result<(), LaunchError>)
    ensures
        confirmed ==> r is Ok,
        !confirmed ==> (r matches Err(e) && e@ == LaunchErrorModel::HostNotConfirmed(lookup@)),
{
    if confirmed {
        Ok(())
    } else {
        Err(LaunchError::HostNotConfirmed { lookup: String::from_str(lookup) })
    }
}

/// `ssh-keygen -F <lookup> -f <known_hosts>`'s arguments.
pub fn keygen_lookup_args(lookup: &str, known_hosts: &[u8]) -> (r: Vec<OsArg>)
    ensures
        arg_views(r@) == seq![
            ArgModel::Text("-F"@),
            ArgModel::Text(lookup@),
            ArgModel::Text("-f"@),
            ArgModel::Path(known_hosts@),
        ],
{
    let mut args: Vec<OsArg> = Vec::new();
    args.push(OsArg::Text(String::from_str("-F")));
    args.push(OsArg::Text(String::from_str(lookup)));
    args.push(OsArg::Text(String::from_str("-f")));
    args.push(OsArg::Path(slice_to_vec(known_hosts)));
    assert(arg_views(args@) =~= seq![
        ArgModel::Text("-F"@),
        ArgModel::Text(lookup@),
        ArgModel::Text("-f"@),
        ArgModel::Path(known_hosts@),
    ]);
    args
}

/// `ssh-keyscan -H [-p <port>] <host>`'s arguments, the host trimmed.
pub open spec fn spec_keyscan_args(s: Server) -> Seq<Seq<char>> {
    seq!["-H"@] + (if s.port != 22 {
        seq![seq!['-', 'p'], decimal(s.port as nat)]
    } else {
        Seq::empty()
    }) + seq![trim(s.host@)]
}

pub fn keyscan_args(server: &Server) -> (r: Vec<String>)
    ensures
        views(r@) == spec_keyscan_args(*server),
{
    let mut args: Vec<String> = Vec::new();
    args.push(String::from_str("-H"));
    if server.port != 22 {
        let mut flag = String::new();
        push_char(&mut flag, '-');
        push_char(&mut flag, 'p');
        assert(flag@ =~= seq!['-', 'p']);
        args.push(flag);
        args.push(decimal_string(server.port as u64));
    }
    args.push(trimmed(server.host.as_str()));
    assert(views(args@) =~= spec_keyscan_args(*server));
    args
}

/// What `ssh-keyscan` returned for `host` (already trimmed): a failure
/// reports its error output, trimmed; success with no output is an error too.
pub fn keyscan_outcome(host: &str, success: bool, stderr: &str, stdout_empty: bool) -> (r: Result<
    (),
    LaunchError,
>)
    ensures
        !success ==> (r matches Err(e) && e@ == LaunchErrorModel::KeyscanFailed(
            host@,
            trim(stderr@),
        )),
        success && stdout_empty ==> (r matches Err(e) && e@ == LaunchErrorModel::KeyscanEmpty(
            host@,
        )),
        success && !stdout_empty ==> r is Ok,
{
    if !success {
        return Err(
            LaunchError::KeyscanFailed { host: String::from_str(host), stderr: trimmed(stderr) },
        );
    }
    if stdout_empty {
        return Err(LaunchError::KeyscanEmpty { host: String::from_str(host) });
    }
    Ok(())
}

/// The note printed after a host key is saved.
pub fn saved_host_message(lookup: &str, known_hosts: &[u8]) -> (r: String)
    ensures
        r@ == "Saved host key for `"@ + lookup@ + "` to "@ + path_text(known_hosts@) + "."@,
{
    let mut out = surround("Saved host key for `", lookup, "` to ");
    let shown = display_path(known_hosts);
    out.append(shown.as_str());
    out.append(".");
    out
}

/// The note printed after the default configuration file was written.
pub fn created_default_message(path: &[u8]) -> (r: String)
    ensures
        r@ == "Created a default config at "@ + path_text(path@)
            + ".\nEdit that file with your servers, then run ashlogin again."@,
{
    let shown = display_path(path);
    surround(
        "Created a default config at ",
        shown.as_str(),
        ".\nEdit that file with your servers, then run ashlogin again.",
    )
}

/// The process's exit code: `ssh`'s own, or 1 when it was killed by a signal.
pub fn exit_code(code: Option<i32>) -> (r: i32)
    ensures
        r == (match code {
            Some(c) => c,
            None => 1,
        }),
{
    match code {
        Some(c) => c,
        None => 1,
    }
}

} // verus!
