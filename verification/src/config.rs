//! The server list: validation, lookup by name or alias, and the text and
//! `ssh` command lines derived from a server entry.
use vstd::prelude::*;
use vstd::string::StringExecFns;
use crate::error::{ConfigError, ConfigErrorModel, string_result};
use crate::accounts::opt_view;
use crate::paths::{
    display_path, expand_path, expand_user_path_with, home_dir, path_text, needs_home,
    option_view, path_join, path_needs_home, text_path,
};
use vstd::utf8::encode_utf8;
use crate::text::{
    ascii_lowercase, chars_of, decimal, decimal_string, digit_char, is_ascii_alnum, is_ascii_alnum_char,
    is_blank, join, join_strings, lower, pad_right, pad_right_exec, push_char, trim, trimmed,
    views,
};

verus! {

/// The parsed configuration file.
#[derive(Debug, Clone, PartialEq, Eq)]
pub struct Config {
    pub servers: Vec<Server>,
}

/// One `[[servers]]` entry.
#[derive(Debug, Clone, PartialEq, Eq)]
pub struct Server {
    pub name: String,
    pub aliases: Vec<String>,
    pub host: String,
    pub user: String,
    pub port: u16,
    pub description: Option<String>,
    pub password: Option<String>,
    pub identity_file: Option<String>,
    pub ssh_options: Vec<String>,
}

/// Where the configuration file was found.
#[derive(Debug, Clone, PartialEq, Eq)]
pub enum ConfigResolution {
    /// An existing file.
    Ready(Vec<u8>),
    /// The default file, which did not exist and was just written.
    CreatedDefault(Vec<u8>),
}

/// Where to look for the configuration file.
#[derive(Debug, Clone, PartialEq, Eq)]
pub enum ConfigSource {
    /// A path given explicitly; `source` names how (for error messages).
    Given { path: Vec<u8>, source: String },
    /// The default file under the home directory.
    Default,
}

/// The configuration file is looked for in this order: the `--config`
/// argument, then the `ASHLOGIN_CONFIG` variable, then the default file.
pub fn config_source(explicit: Option<Vec<u8>>, env_value: Option<String>) -> (r: ConfigSource)
    ensures
        match explicit {
            Some(p) => r matches ConfigSource::Given { path, source } && path@ == p@ && source@
                == "--config"@,
            None => match env_value {
                Some(p) => r matches ConfigSource::Given { path, source } && path@ == encode_utf8(
                    p@,
                ) && source@ == "ASHLOGIN_CONFIG"@,
                None => r is Default,
            },
        },
{
    match explicit {
        Some(path) => ConfigSource::Given { path, source: String::from_str("--config") },
        None => match env_value {
            Some(path) => ConfigSource::Given {
                path: text_path(path.as_str()),
                source: String::from_str("ASHLOGIN_CONFIG"),
            },
            None => ConfigSource::Default,
        },
    }
}

/// The outcome for the default file: `Ready` when it already is a file,
/// `CreatedDefault` when it had to be written.
pub fn default_resolution(path: Vec<u8>, is_file: bool) -> (r: ConfigResolution)
    ensures
        is_file ==> (r matches ConfigResolution::Ready(p) && p@ == path@),
        !is_file ==> (r matches ConfigResolution::CreatedDefault(p) && p@ == path@),
{
    if is_file {
        ConfigResolution::Ready(path)
    } else {
        ConfigResolution::CreatedDefault(path)
    }
}

/// The port used when an entry gives none.
pub fn default_port() -> (r: u16)
    ensures
        r == 22,
{
    22
}

// ---------------------------------------------------------------------------
// Specifications.

/// The key under which names, aliases and queries are compared.
pub open spec fn normalize(s: Seq<char>) -> Seq<char> {
    lower(trim(s))
}

/// `user@host`, both trimmed.
pub open spec fn spec_target(s: Server) -> Seq<char> {
    trim(s.user@) + seq!['@'] + trim(s.host@)
}

pub open spec fn spec_target_with_port(s: Server) -> Seq<char> {
    if s.port == 22 {
        spec_target(s)
    } else {
        spec_target(s) + seq![':'] + decimal(s.port as nat)
    }
}

pub open spec fn spec_known_hosts_lookup(s: Server) -> Seq<char> {
    if s.port == 22 {
        trim(s.host@)
    } else {
        seq!['['] + trim(s.host@) + seq![']', ':'] + decimal(s.port as nat)
    }
}

/// The description, trimmed, unless it is absent or blank.
pub open spec fn spec_description_text(s: Server) -> Option<Seq<char>> {
    match s.description {
        Some(d) => if trim(d@).len() > 0 {
            Some(trim(d@))
        } else {
            None
        },
        None => None,
    }
}

pub open spec fn spec_menu_label(s: Server) -> Seq<char> {
    let base = pad_right(trim(s.name@), 18) + seq![' '] + spec_target_with_port(s);
    let with_desc = match spec_description_text(s) {
        Some(d) => base + seq![' ', ' '] + d,
        None => base,
    };
    if s.aliases@.len() > 0 {
        with_desc + seq![' ', ' ', '['] + join(views(s.aliases@), seq![',', ' ']) + seq![']']
    } else {
        with_desc
    }
}

/// The characters that a POSIX shell reads literally outside quotes.
pub open spec fn is_shell_safe(c: char) -> bool {
    is_ascii_alnum(c) || c == '-' || c == '_' || c == '.' || c == '/' || c == ':' || c == '='
        || c == '@'
}

pub open spec fn all_shell_safe(s: Seq<char>) -> bool {
    forall|i: int| 0 <= i < s.len() ==> is_shell_safe(#[trigger] s[i])
}

/// One character inside single quotes: a quote becomes `'"'"'`.
pub open spec fn quote_piece(c: char) -> Seq<char> {
    if c == '\'' {
        seq!['\'', '"', '\'', '"', '\'']
    } else {
        seq![c]
    }
}

pub open spec fn escape_quotes(s: Seq<char>) -> Seq<char>
    decreases s.len(),
{
    if s.len() == 0 {
        Seq::empty()
    } else {
        escape_quotes(s.drop_last()) + quote_piece(s.last())
    }
}

/// A word as a POSIX shell would need it written to read it back unchanged.
pub open spec fn shell_quote_spec(s: Seq<char>) -> Seq<char> {
    if all_shell_safe(s) {
        s
    } else {
        seq!['\''] + escape_quotes(s) + seq!['\'']
    }
}

/// The server answers to `key`, by its name or by one of its aliases.
pub open spec fn server_matches(s: Server, key: Seq<char>) -> bool {
    ||| normalize(s.name@) == key
    ||| exists|k: int| 0 <= k < s.aliases@.len() && normalize(#[trigger] s.aliases@[k]@) == key
}

/// `i` is the first server that answers to `key`.
pub open spec fn first_match(servers: Seq<Server>, key: Seq<char>, i: int) -> bool {
    &&& 0 <= i < servers.len()
    &&& server_matches(servers[i], key)
    &&& forall|j: int| 0 <= j < i ==> !server_matches(#[trigger] servers[j], key)
}

/// The names a server claims: its trimmed name, then its aliases as written.
pub open spec fn name_candidates(s: Server) -> Seq<Seq<char>> {
    seq![trim(s.name@)] + views(s.aliases@)
}

/// Registers one candidate under the keys already taken.
pub open spec fn add_candidate(name: Seq<char>, known: Seq<Seq<char>>, c: Seq<char>) -> Result<
    Seq<Seq<char>>,
    ConfigErrorModel,
> {
    let key = normalize(c);
    if key.len() == 0 {
        Err(ConfigErrorModel::EmptyAlias(name))
    } else if known.contains(key) {
        Err(ConfigErrorModel::DuplicateName(c))
    } else {
        Ok(known.push(key))
    }
}

pub open spec fn add_candidates(
    name: Seq<char>,
    known: Seq<Seq<char>>,
    cands: Seq<Seq<char>>,
) -> Result<Seq<Seq<char>>, ConfigErrorModel>
    decreases cands.len(),
{
    if cands.len() == 0 {
        Ok(known)
    } else {
        match add_candidates(name, known, cands.drop_last()) {
            Ok(k) => add_candidate(name, k, cands.last()),
            Err(e) => Err(e),
        }
    }
}

/// Checks one server against the keys that earlier servers took.
pub open spec fn check_server(s: Server, known: Seq<Seq<char>>) -> Result<
    Seq<Seq<char>>,
    ConfigErrorModel,
> {
    let name = trim(s.name@);
    if name.len() == 0 {
        Err(ConfigErrorModel::EmptyServerName)
    } else if trim(s.host@).len() == 0 {
        Err(ConfigErrorModel::MissingHost(name))
    } else if trim(s.user@).len() == 0 {
        Err(ConfigErrorModel::MissingUser(name))
    } else if s.password matches Some(p) && trim(p@).len() == 0 {
        Err(ConfigErrorModel::EmptyPassword(name))
    } else {
        add_candidates(name, known, name_candidates(s))
    }
}

/// Checks the servers in order; on success, the keys they claim.
pub open spec fn check_servers(servers: Seq<Server>) -> Result<Seq<Seq<char>>, ConfigErrorModel>
    decreases servers.len(),
{
    if servers.len() == 0 {
        Ok(Seq::empty())
    } else {
        match check_servers(servers.drop_last()) {
            Ok(k) => check_server(servers.last(), k),
            Err(e) => Err(e),
        }
    }
}

/// What validating a configuration yields: the first problem, in file order.
pub open spec fn spec_validate(servers: Seq<Server>) -> Result<(), ConfigErrorModel> {
    if servers.len() == 0 {
        Err(ConfigErrorModel::NoServers)
    } else {
        match check_servers(servers) {
            Ok(_) => Ok(()),
            Err(e) => Err(e),
        }
    }
}

pub open spec fn uses_password(s: Server) -> bool {
    s.password is Some
}

pub open spec fn port_args(s: Server) -> Seq<Seq<char>> {
    if s.port != 22 {
        seq![seq!['-', 'p'], decimal(s.port as nat)]
    } else {
        Seq::empty()
    }
}

/// `-o <option>` for each option.
pub open spec fn option_args(opts: Seq<Seq<char>>) -> Seq<Seq<char>>
    decreases opts.len(),
{
    if opts.len() == 0 {
        Seq::empty()
    } else {
        option_args(opts.drop_last()) + seq![seq!['-', 'o'], opts.last()]
    }
}

/// `-o <quoted option>` for each option.
pub open spec fn quoted_option_args(opts: Seq<Seq<char>>) -> Seq<Seq<char>>
    decreases opts.len(),
{
    if opts.len() == 0 {
        Seq::empty()
    } else {
        quoted_option_args(opts.drop_last()) + seq![seq!['-', 'o'], shell_quote_spec(opts.last())]
    }
}

/// The identity file after `~` expansion, if the entry names one.
pub open spec fn expanded_identity(s: Server, home: Option<Seq<u8>>) -> Result<
    Option<Seq<u8>>,
    ConfigErrorModel,
> {
    match s.identity_file {
        None => Ok(None),
        Some(p) => match expand_path(encode_utf8(p@), home) {
            Ok(e) => Ok(Some(e)),
            Err(x) => Err(x),
        },
    }
}

/// The program that is started: `sshpass` when the entry has a password.
pub open spec fn spec_program(s: Server) -> Seq<char> {
    if uses_password(s) {
        "sshpass"@
    } else {
        "ssh"@
    }
}

/// The model of one argument of a process: text, or the bytes of a path.
pub enum ArgModel {
    Text(Seq<char>),
    Path(Seq<u8>),
}

/// Words of text as arguments.
pub open spec fn texts(words: Seq<Seq<char>>) -> Seq<ArgModel> {
    words.map_values(|w: Seq<char>| ArgModel::Text(w))
}

/// How an argument reads when displayed.
pub open spec fn arg_display(a: ArgModel) -> Seq<char> {
    match a {
        ArgModel::Text(t) => t,
        ArgModel::Path(p) => path_text(p),
    }
}

pub open spec fn displays(args: Seq<ArgModel>) -> Seq<Seq<char>> {
    args.map_values(|a: ArgModel| arg_display(a))
}

pub open spec fn password_words(s: Server) -> Seq<Seq<char>> {
    if uses_password(s) {
        seq!["-e"@, "ssh"@]
    } else {
        Seq::empty()
    }
}

/// The arguments handed to the program.
pub open spec fn spec_ssh_args(s: Server, identity: Option<Seq<u8>>) -> Seq<ArgModel> {
    texts(password_words(s)) + texts(port_args(s)) + (match identity {
        Some(p) => seq![ArgModel::Text(seq!['-', 'i']), ArgModel::Path(p)],
        None => Seq::empty(),
    }) + texts(option_args(views(s.ssh_options@))) + seq![ArgModel::Text(spec_target(s))]
}

/// The environment given to the program: the password, for `sshpass -e`.
pub open spec fn spec_ssh_env(s: Server) -> Seq<(Seq<char>, Seq<char>)> {
    match s.password {
        Some(p) => seq![("SSHPASS"@, p@)],
        None => Seq::empty(),
    }
}

/// The model of a prepared `ssh` invocation.
pub struct InvocationModel {
    pub program: Seq<char>,
    pub args: Seq<ArgModel>,
    pub env: Seq<(Seq<char>, Seq<char>)>,
}

pub open spec fn spec_invocation(s: Server, home: Option<Seq<u8>>) -> Result<
    InvocationModel,
    ConfigErrorModel,
> {
    match expanded_identity(s, home) {
        Ok(id) => Ok(
            InvocationModel {
                program: spec_program(s),
                args: spec_ssh_args(s, id),
                env: spec_ssh_env(s),
            },
        ),
        Err(e) => Err(e),
    }
}

/// The words of the printed command; the password itself shows as `***`,
/// and the identity file as its path displays.
pub open spec fn spec_preview_parts(s: Server, identity: Option<Seq<u8>>) -> Seq<Seq<char>> {
    (if uses_password(s) {
        seq!["SSHPASS=***"@, "sshpass"@, "-e"@]
    } else {
        Seq::empty()
    }) + seq!["ssh"@] + port_args(s) + (match identity {
        Some(p) => seq![seq!['-', 'i'], shell_quote_spec(path_text(p))],
        None => Seq::empty(),
    }) + quoted_option_args(views(s.ssh_options@)) + seq![shell_quote_spec(spec_target(s))]
}

pub open spec fn spec_preview(s: Server, home: Option<Seq<u8>>) -> Result<
    Seq<char>,
    ConfigErrorModel,
> {
    match expanded_identity(s, home) {
        Ok(id) => Ok(join(spec_preview_parts(s, id), seq![' '])),
        Err(e) => Err(e),
    }
}

/// The identity file needs the home directory to be expanded.
pub open spec fn identity_needs_home(s: Server) -> bool {
    s.identity_file matches Some(p) && needs_home(encode_utf8(p@))
}

/// Once a prefix of the candidates fails, the whole list fails the same way.
proof fn lemma_add_candidates_prefix_err(
    name: Seq<char>,
    known: Seq<Seq<char>>,
    cands: Seq<Seq<char>>,
    m: int,
)
    requires
        0 <= m <= cands.len(),
        add_candidates(name, known, cands.take(m)) is Err,
    ensures
        add_candidates(name, known, cands) == add_candidates(name, known, cands.take(m)),
    decreases cands.len() - m,
{
    if m == cands.len() {
        assert(cands.take(m) =~= cands);
    } else {
        assert(cands.take(m + 1).drop_last() =~= cands.take(m));
        lemma_add_candidates_prefix_err(name, known, cands, m + 1);
    }
}

/// Once a prefix of the servers fails, the whole list fails the same way.
proof fn lemma_check_servers_prefix_err(servers: Seq<Server>, m: int)
    requires
        0 <= m <= servers.len(),
        check_servers(servers.take(m)) is Err,
    ensures
        check_servers(servers) == check_servers(servers.take(m)),
    decreases servers.len() - m,
{
    if m == servers.len() {
        assert(servers.take(m) =~= servers);
    } else {
        assert(servers.take(m + 1).drop_last() =~= servers.take(m));
        lemma_check_servers_prefix_err(servers, m + 1);
    }
}

// ---------------------------------------------------------------------------
// Executable code.

/// `normalize` of a name, alias or query.
pub fn normalize_lookup_key(value: &str) -> (r: String)
    ensures
        r@ == normalize(value@),
{
    let t = trimmed(value);
    ascii_lowercase(t.as_str())
}

/// Quotes a word for a POSIX shell unless it needs no quoting.
pub fn shell_quote(value: &str) -> (r: String)
    ensures
        r@ == shell_quote_spec(value@),
{
    let v = chars_of(value);
    let mut safe = true;
    let mut k: usize = 0;
    while k < v.len()
        invariant
            k <= v.len(),
            v@ == value@,
            safe == (forall|j: int| 0 <= j < k ==> is_shell_safe(#[trigger] value@[j])),
        decreases v.len() - k,
    {
        let c = v[k];
        let ok = is_ascii_alnum_char(c) || c == '-' || c == '_' || c == '.' || c == '/' || c
            == ':' || c == '=' || c == '@';
        if !ok {
            safe = false;
        }
        k = k + 1;
    }
    if safe {
        return String::from_str(value);
    }
    let mut out = String::new();
    push_char(&mut out, '\'');
    let mut k: usize = 0;
    while k < v.len()
        invariant
            k <= v.len(),
            v@ == value@,
            out@ == seq!['\''] + escape_quotes(value@.take(k as int)),
        decreases v.len() - k,
    {
        let c = v[k];
        let ghost before = out@;
        if c == '\'' {
            push_char(&mut out, '\'');
            push_char(&mut out, '"');
            push_char(&mut out, '\'');
            push_char(&mut out, '"');
            push_char(&mut out, '\'');
        } else {
            push_char(&mut out, c);
        }
        assert(out@ =~= before + quote_piece(c));
        assert(value@.take(k + 1).drop_last() =~= value@.take(k as int));
        k = k + 1;
    }
    assert(value@.take(v.len() as int) =~= value@);
    push_char(&mut out, '\'');
    out
}

/// Whether a vector of strings holds one with the view of `s`.
fn contains_key(keys: &Vec<String>, s: &String) -> (r: bool)
    ensures
        r == views(keys@).contains(s@),
{
    let mut k: usize = 0;
    while k < keys.len()
        invariant
            k <= keys.len(),
            forall|j: int| 0 <= j < k ==> keys@[j]@ != s@,
        decreases keys.len() - k,
    {
        if keys[k] == *s {
            assert(views(keys@)[k as int] == s@);
            return true;
        }
        k = k + 1;
    }
    proof {
        if views(keys@).contains(s@) {
            let j = choose|j: int| 0 <= j < views(keys@).len() && views(keys@)[j] == s@;
            assert(keys@[j]@ == s@);
        }
    }
    false
}

/// Whether the server answers to the normalized key.
fn matches_key(server: &Server, key: &String) -> (r: bool)
    ensures
        r == server_matches(*server, key@),
{
    let n = normalize_lookup_key(server.name.as_str());
    if n == *key {
        return true;
    }
    let mut k: usize = 0;
    while k < server.aliases.len()
        invariant
            k <= server.aliases.len(),
            normalize(server.name@) != key@,
            forall|j: int| 0 <= j < k ==> normalize(#[trigger] server.aliases@[j]@) != key@,
        decreases server.aliases.len() - k,
    {
        let a = normalize_lookup_key(server.aliases[k].as_str());
        if a == *key {
            return true;
        }
        k = k + 1;
    }
    false
}

/// Registers `candidate` under `known`, or reports why it cannot be.
fn register_candidate(name: &String, known: &mut Vec<String>, candidate: &String) -> (r: Result<
    (),
    ConfigError,
>)
    ensures
        match add_candidate(name@, views(old(known)@), candidate@) {
            Ok(k) => r is Ok && views(final(known)@) == k,
            Err(e) => r matches Err(x) && x@ == e,
        },
{
    let key = normalize_lookup_key(candidate.as_str());
    if key.as_str().is_empty() {
        return Err(ConfigError::EmptyAlias { name: name.clone() });
    }
    if contains_key(known, &key) {
        return Err(ConfigError::DuplicateName { candidate: candidate.clone() });
    }
    let ghost before = views(known@);
    known.push(key);
    assert(views(known@) =~= before.push(normalize(candidate@)));
    Ok(())
}

/// Checks one server and registers the names it claims.
fn check_one(server: &Server, known: &mut Vec<String>) -> (r: Result<(), ConfigError>)
    ensures
        match check_server(*server, views(old(known)@)) {
            Ok(k) => r is Ok && views(final(known)@) == k,
            Err(e) => r matches Err(x) && x@ == e,
        },
{
    let name = trimmed(server.name.as_str());
    if name.as_str().is_empty() {
        return Err(ConfigError::EmptyServerName);
    }
    if is_blank(server.host.as_str()) {
        return Err(ConfigError::MissingHost { name });
    }
    if is_blank(server.user.as_str()) {
        return Err(ConfigError::MissingUser { name });
    }
    match &server.password {
        Some(p) => {
            if is_blank(p.as_str()) {
                return Err(ConfigError::EmptyPassword { name });
            }
        },
        None => {},
    }
    let ghost known0 = views(known@);
    let ghost cands = name_candidates(*server);
    proof {
        assert(cands.take(0) =~= Seq::<Seq<char>>::empty());
        assert(add_candidates(name@, known0, cands.take(0)) == Ok::<
            Seq<Seq<char>>,
            ConfigErrorModel,
        >(known0));
        assert(cands.take(1).drop_last() =~= cands.take(0));
        assert(cands.take(1).last() == name@);
        assert(check_server(*server, known0) == add_candidates(name@, known0, cands));
    }
    let first = register_candidate(&name, known, &name);
    if first.is_err() {
        proof {
            lemma_add_candidates_prefix_err(name@, known0, cands, 1);
        }
        return first;
    }
    let mut k: usize = 0;
    while k < server.aliases.len()
        invariant
            k <= server.aliases.len(),
            cands == name_candidates(*server),
            cands.len() == server.aliases.len() + 1,
            name@ == trim(server.name@),
            known0 == views(old(known)@),
            check_server(*server, known0) == add_candidates(name@, known0, cands),
            add_candidates(name@, known0, cands.take(k + 1)) == Ok::<
                Seq<Seq<char>>,
                ConfigErrorModel,
            >(views(known@)),
        decreases server.aliases.len() - k,
    {
        proof {
            assert(cands.take(k + 2).drop_last() =~= cands.take(k + 1));
            assert(cands.take(k + 2).last() == server.aliases@[k as int]@);
        }
        let step = register_candidate(&name, known, &server.aliases[k]);
        if step.is_err() {
            proof {
                lemma_add_candidates_prefix_err(name@, known0, cands, k + 2);
            }
            return step;
        }
        k = k + 1;
    }
    assert(cands.take(server.aliases.len() + 1) =~= cands);
    Ok(())
}

impl Config {
    /// The first server whose name or alias, trimmed and lowercased, equals
    /// the trimmed and lowercased query.
    pub fn find_server(&self, query: &str) -> (r: Option<&Server>)
        ensures
            match r {
                Some(s) => exists|i: int|
                    #[trigger] first_match(self.servers@, normalize(query@), i) && *s
                        == self.servers@[i],
                None => forall|i: int|
                    0 <= i < self.servers@.len() ==> !server_matches(
                        #[trigger] self.servers@[i],
                        normalize(query@),
                    ),
            },
    {
        let key = normalize_lookup_key(query);
        let mut i: usize = 0;
        while i < self.servers.len()
            invariant
                i <= self.servers.len(),
                key@ == normalize(query@),
                forall|j: int| 0 <= j < i ==> !server_matches(#[trigger] self.servers@[j], key@),
            decreases self.servers.len() - i,
        {
            if matches_key(&self.servers[i], &key) {
                assert(first_match(self.servers@, normalize(query@), i as int));
                return Some(&self.servers[i]);
            }
            i = i + 1;
        }
        None
    }

    /// Like [`Config::find_server`], but a miss is an error naming the query.
    pub fn get_server(&self, query: &str) -> (r: Result<&Server, ConfigError>)
        ensures
            match r {
                Ok(s) => exists|i: int|
                    #[trigger] first_match(self.servers@, normalize(query@), i) && *s
                        == self.servers@[i],
                Err(e) => e@ == ConfigErrorModel::ServerNotFound(query@) && forall|i: int|
                    0 <= i < self.servers@.len() ==> !server_matches(
                        #[trigger] self.servers@[i],
                        normalize(query@),
                    ),
            },
    {
        match self.find_server(query) {
            Some(s) => Ok(s),
            None => Err(ConfigError::ServerNotFound { query: String::from_str(query) }),
        }
    }

    /// Checks the entries in order and reports the first problem: no entries;
    /// a blank name, host or user; a blank password; a name or alias that is
    /// blank or already taken once trimmed and lowercased.
    pub fn validate(&self) -> (r: Result<(), ConfigError>)
        ensures
            match spec_validate(self.servers@) {
                Ok(_) => r is Ok,
                Err(e) => r matches Err(x) && x@ == e,
            },
    {
        if self.servers.len() == 0 {
            return Err(ConfigError::NoServers);
        }
        let mut known: Vec<String> = Vec::new();
        let mut i: usize = 0;
        assert(self.servers@.take(0) =~= Seq::<Server>::empty());
        assert(views(known@) =~= Seq::<Seq<char>>::empty());
        assert(check_servers(self.servers@.take(0)) == Ok::<
            Seq<Seq<char>>,
            ConfigErrorModel,
        >(Seq::empty()));
        while i < self.servers.len()
            invariant
                i <= self.servers.len(),
                check_servers(self.servers@.take(i as int)) == Ok::<
                    Seq<Seq<char>>,
                    ConfigErrorModel,
                >(views(known@)),
            decreases self.servers.len() - i,
        {
            proof {
                assert(self.servers@.take(i + 1).drop_last() =~= self.servers@.take(i as int));
                assert(self.servers@.take(i + 1).last() == self.servers@[i as int]);
            }
            let step = check_one(&self.servers[i], &mut known);
            if step.is_err() {
                proof {
                    lemma_check_servers_prefix_err(self.servers@, i + 1);
                }
                return step;
            }
            i = i + 1;
        }
        assert(self.servers@.take(self.servers.len() as int) =~= self.servers@);
        Ok(())
    }
}

/// One argument of a process: text, or the bytes of a path.
#[derive(Debug, Clone, PartialEq, Eq)]
pub enum OsArg {
    Text(String),
    Path(Vec<u8>),
}

impl View for OsArg {
    type V = ArgModel;

    open spec fn view(&self) -> ArgModel {
        match self {
            OsArg::Text(t) => ArgModel::Text(t@),
            OsArg::Path(p) => ArgModel::Path(p@),
        }
    }
}

pub open spec fn arg_views(a: Seq<OsArg>) -> Seq<ArgModel> {
    a.map_values(|x: OsArg| x@)
}

/// A prepared `ssh` (or `sshpass`) invocation.
pub struct SshInvocation {
    pub program: String,
    pub args: Vec<OsArg>,
    pub envs: Vec<(String, String)>,
}

pub open spec fn env_views(e: Seq<(String, String)>) -> Seq<(Seq<char>, Seq<char>)> {
    e.map_values(|p: (String, String)| (p.0@, p.1@))
}

impl SshInvocation {
    pub open spec fn model(&self) -> InvocationModel {
        InvocationModel {
            program: self.program@,
            args: arg_views(self.args@),
            env: env_views(self.envs@),
        }
    }
}

pub open spec fn invocation_result(r: Result<SshInvocation, ConfigError>) -> Result<
    InvocationModel,
    ConfigErrorModel,
> {
    match r {
        Ok(v) => Ok(v.model()),
        Err(e) => Err(e@),
    }
}

/// Pushes `s` onto `v`, keeping track of the views.
fn push_word(v: &mut Vec<String>, s: String)
    ensures
        views(final(v)@) == views(old(v)@).push(s@),
{
    v.push(s);
    assert(views(v@) =~= views(old(v)@).push(s@));
}

/// Pushes `a` onto `v`, keeping track of the views.
fn push_arg(v: &mut Vec<OsArg>, a: OsArg)
    ensures
        arg_views(final(v)@) == arg_views(old(v)@).push(a@),
{
    v.push(a);
    assert(arg_views(v@) =~= arg_views(old(v)@).push(a@));
}

/// Appends each word of `words` as a text argument.
fn push_texts(v: &mut Vec<OsArg>, words: Vec<String>)
    ensures
        arg_views(final(v)@) == arg_views(old(v)@) + texts(views(words@)),
{
    let ghost start = arg_views(v@);
    let mut k: usize = 0;
    while k < words.len()
        invariant
            k <= words.len(),
            arg_views(v@) == start + texts(views(words@.take(k as int))),
        decreases words.len() - k,
    {
        push_arg(v, OsArg::Text(words[k].clone()));
        assert(texts(views(words@.take(k + 1))) =~= texts(views(words@.take(k as int))).push(
            ArgModel::Text(words@[k as int]@),
        ));
        k = k + 1;
    }
    assert(words@.take(words.len() as int) =~= words@);
}

impl Server {
    /// `user@host`, both trimmed.
    pub fn target(&self) -> (r: String)
        ensures
            r@ == spec_target(*self),
    {
        let mut out = trimmed(self.user.as_str());
        push_char(&mut out, '@');
        let h = trimmed(self.host.as_str());
        out.append(h.as_str());
        out
    }

    /// The target, followed by `:port` unless the port is 22.
    pub fn target_with_port(&self) -> (r: String)
        ensures
            r@ == spec_target_with_port(*self),
    {
        if self.port == 22 {
            self.target()
        } else {
            let mut out = self.target();
            push_char(&mut out, ':');
            let p = decimal_string(self.port as u64);
            out.append(p.as_str());
            out
        }
    }

    /// The host as `ssh-keygen -F` looks it up: `[host]:port` unless the port is 22.
    pub fn known_hosts_lookup(&self) -> (r: String)
        ensures
            r@ == spec_known_hosts_lookup(*self),
    {
        if self.port == 22 {
            trimmed(self.host.as_str())
        } else {
            let mut out = String::new();
            push_char(&mut out, '[');
            let h = trimmed(self.host.as_str());
            out.append(h.as_str());
            push_char(&mut out, ']');
            push_char(&mut out, ':');
            let p = decimal_string(self.port as u64);
            out.append(p.as_str());
            out
        }
    }

    /// The trimmed description, unless it is absent or blank.
    pub fn description_text(&self) -> (r: Option<String>)
        ensures
            opt_view(r) == spec_description_text(*self),
    {
        match &self.description {
            Some(d) => {
                let t = trimmed(d.as_str());
                if t.as_str().is_empty() {
                    None
                } else {
                    Some(t)
                }
            },
            None => None,
        }
    }

    /// One line for the picker: name padded to 18 columns, target with port,
    /// then the description and the aliases when there are any.
    pub fn menu_label(&self) -> (r: String)
        ensures
            r@ == spec_menu_label(*self),
    {
        let name = trimmed(self.name.as_str());
        let mut label = pad_right_exec(name, 18);
        push_char(&mut label, ' ');
        let t = self.target_with_port();
        label.append(t.as_str());
        let ghost base = pad_right(trim(self.name@), 18) + seq![' '] + spec_target_with_port(*self);
        assert(label@ =~= base);
        match self.description_text() {
            Some(d) => {
                push_char(&mut label, ' ');
                push_char(&mut label, ' ');
                label.append(d.as_str());
                assert(label@ =~= base + seq![' ', ' '] + d@);
            },
            None => {},
        }
        let ghost with_desc = label@;
        if self.aliases.len() > 0 {
            push_char(&mut label, ' ');
            push_char(&mut label, ' ');
            push_char(&mut label, '[');
            let mut sep = String::new();
            push_char(&mut sep, ',');
            push_char(&mut sep, ' ');
            assert(sep@ =~= seq![',', ' ']);
            let joined = join_strings(&self.aliases, sep.as_str());
            label.append(joined.as_str());
            push_char(&mut label, ']');
            assert(label@ =~= with_desc + seq![' ', ' ', '['] + join(
                views(self.aliases@),
                seq![',', ' '],
            ) + seq![']']);
        }
        label
    }

    /// The line printed by `--list`: the same as the picker's.
    pub fn list_line(&self) -> (r: String)
        ensures
            r@ == spec_menu_label(*self),
    {
        self.menu_label()
    }

    /// The entry has a password, so logging in goes through `sshpass`.
    pub fn uses_password_auth(&self) -> (r: bool)
        ensures
            r == uses_password(*self),
    {
        self.password.is_some()
    }

    fn identity_with(&self, home: &Option<Vec<u8>>) -> (r: Result<Option<Vec<u8>>, ConfigError>)
        ensures
            match expanded_identity(*self, option_view(*home)) {
                Ok(id) => r matches Ok(x) && option_view(x) == id,
                Err(e) => r matches Err(x) && x@ == e,
            },
    {
        match &self.identity_file {
            Some(p) => match expand_user_path_with(text_path(p.as_str()).as_slice(), home) {
                Ok(e) => Ok(Some(e)),
                Err(e) => Err(e),
            },
            None => Ok(None),
        }
    }

    fn needs_home_dir(&self) -> (r: bool)
        ensures
            r == identity_needs_home(*self),
    {
        match &self.identity_file {
            Some(p) => path_needs_home(text_path(p.as_str()).as_slice()),
            None => false,
        }
    }

    fn option_words(&self, quoted: bool, words: &mut Vec<String>)
        ensures
            quoted ==> views(final(words)@) == views(old(words)@) + quoted_option_args(
                views(self.ssh_options@),
            ),
            !quoted ==> views(final(words)@) == views(old(words)@) + option_args(
                views(self.ssh_options@),
            ),
    {
        let ghost start = views(words@);
        let ghost opts = views(self.ssh_options@);
        let mut k: usize = 0;
        assert(opts.take(0) =~= Seq::<Seq<char>>::empty());
        assert(start + Seq::<Seq<char>>::empty() =~= start);
        while k < self.ssh_options.len()
            invariant
                k <= self.ssh_options.len(),
                opts == views(self.ssh_options@),
                quoted ==> views(words@) == start + quoted_option_args(opts.take(k as int)),
                !quoted ==> views(words@) == start + option_args(opts.take(k as int)),
            decreases self.ssh_options.len() - k,
        {
            proof {
                assert(opts.take(k + 1).drop_last() =~= opts.take(k as int));
                assert(opts.take(k + 1).last() == self.ssh_options@[k as int]@);
            }
            let mut flag = String::new();
            push_char(&mut flag, '-');
            push_char(&mut flag, 'o');
            assert(flag@ =~= seq!['-', 'o']);
            push_word(words, flag);
            if quoted {
                push_word(words, shell_quote(self.ssh_options[k].as_str()));
                assert(views(words@) =~= start + quoted_option_args(opts.take(k + 1)));
            } else {
                push_word(words, self.ssh_options[k].clone());
                assert(views(words@) =~= start + option_args(opts.take(k + 1)));
            }
            k = k + 1;
        }
        assert(opts.take(self.ssh_options.len() as int) =~= opts);
    }

    fn port_words(&self, words: &mut Vec<String>)
        ensures
            views(final(words)@) == views(old(words)@) + port_args(*self),
    {
        if self.port != 22 {
            let mut flag = String::new();
            push_char(&mut flag, '-');
            push_char(&mut flag, 'p');
            assert(flag@ =~= seq!['-', 'p']);
            push_word(words, flag);
            push_word(words, decimal_string(self.port as u64));
            assert(views(words@) =~= views(old(words)@) + port_args(*self));
        } else {
            assert(views(words@) =~= views(old(words)@) + port_args(*self));
        }
    }

    /// The command `--dry-run` prints, for the given home directory.
    pub fn preview_command_with(&self, home: &Option<Vec<u8>>) -> (r: Result<String, ConfigError>)
        ensures
            string_result(r) == spec_preview(*self, option_view(*home)),
    {
        let mut parts: Vec<String> = Vec::new();
        if self.password.is_some() {
            push_word(&mut parts, String::from_str("SSHPASS=***"));
            push_word(&mut parts, String::from_str("sshpass"));
            push_word(&mut parts, String::from_str("-e"));
        }
        push_word(&mut parts, String::from_str("ssh"));
        let ghost head = views(parts@);
        self.port_words(&mut parts);
        let ghost after_port = views(parts@);
        let identity = match self.identity_with(home) {
            Ok(id) => id,
            Err(e) => return Err(e),
        };
        match &identity {
            Some(p) => {
                let mut flag = String::new();
                push_char(&mut flag, '-');
                push_char(&mut flag, 'i');
                assert(flag@ =~= seq!['-', 'i']);
                push_word(&mut parts, flag);
                let shown = display_path(p.as_slice());
                push_word(&mut parts, shell_quote(shown.as_str()));
            },
            None => {},
        }
        let ghost after_id = views(parts@);
        self.option_words(true, &mut parts);
        let t = self.target();
        push_word(&mut parts, shell_quote(t.as_str()));
        proof {
            let id = option_view(identity);
            assert(views(parts@) =~= spec_preview_parts(*self, id));
        }
        let mut sep = String::new();
        push_char(&mut sep, ' ');
        Ok(join_strings(&parts, sep.as_str()))
    }

    /// The command `--dry-run` prints: the `ssh` command line, words quoted
    /// for a shell, with the password shown as `***`. The home directory is
    /// looked up only when the identity file starts with `~`.
    pub fn preview_command(&self) -> (r: Result<String, ConfigError>)
        ensures
            !identity_needs_home(*self) ==> string_result(r) == spec_preview(*self, None),
            exists|h: Option<Seq<u8>>|
                (h matches Some(d) ==> d.len() > 0) && #[trigger] spec_preview(*self, h)
                    == string_result(r),
    {
        let home = if self.needs_home_dir() {
            home_dir()
        } else {
            None
        };
        let r = self.preview_command_with(&home);
        proof {
            if !identity_needs_home(*self) {
                lemma_identity_without_home(*self, option_view(home));
            }
        }
        assert(spec_preview(*self, option_view(home)) == string_result(r));
        r
    }

    /// The program, arguments and environment that log in to this server, for
    /// the given home directory.
    pub fn ssh_invocation_with(&self, home: &Option<Vec<u8>>) -> (r: Result<
        SshInvocation,
        ConfigError,
    >)
        ensures
            invocation_result(r) == spec_invocation(*self, option_view(*home)),
    {
        let mut words: Vec<String> = Vec::new();
        let mut envs: Vec<(String, String)> = Vec::new();
        let program = match &self.password {
            Some(p) => {
                push_word(&mut words, String::from_str("-e"));
                push_word(&mut words, String::from_str("ssh"));
                envs.push((String::from_str("SSHPASS"), p.clone()));
                String::from_str("sshpass")
            },
            None => String::from_str("ssh"),
        };
        assert(views(words@) =~= password_words(*self));
        self.port_words(&mut words);
        let identity = match self.identity_with(home) {
            Ok(id) => id,
            Err(e) => return Err(e),
        };
        let mut args: Vec<OsArg> = Vec::new();
        push_texts(&mut args, words);
        match &identity {
            Some(p) => {
                let mut flag = String::new();
                push_char(&mut flag, '-');
                push_char(&mut flag, 'i');
                assert(flag@ =~= seq!['-', 'i']);
                push_arg(&mut args, OsArg::Text(flag));
                push_arg(&mut args, OsArg::Path(p.clone()));
            },
            None => {},
        }
        let mut opts: Vec<String> = Vec::new();
        self.option_words(false, &mut opts);
        push_texts(&mut args, opts);
        push_arg(&mut args, OsArg::Text(self.target()));
        let inv = SshInvocation { program, args, envs };
        proof {
            let id = option_view(identity);
            assert(texts(password_words(*self) + port_args(*self)) =~= texts(password_words(*self))
                + texts(port_args(*self)));
            assert(Seq::<Seq<char>>::empty() + option_args(views(self.ssh_options@)) =~= option_args(views(self.ssh_options@)));
            assert(arg_views(inv.args@) =~= spec_ssh_args(*self, id));
            assert(env_views(inv.envs@) =~= spec_ssh_env(*self));
        }
        Ok(inv)
    }

    /// The program, arguments and environment that log in to this server:
    /// `sshpass -e ssh ...` with `SSHPASS` set when the entry has a password,
    /// `ssh ...` otherwise.
    pub fn ssh_invocation(&self) -> (r: Result<SshInvocation, ConfigError>)
        ensures
            !identity_needs_home(*self) ==> invocation_result(r) == spec_invocation(*self, None),
            exists|h: Option<Seq<u8>>|
                (h matches Some(d) ==> d.len() > 0) && #[trigger] spec_invocation(*self, h)
                    == invocation_result(r),
    {
        let home = if self.needs_home_dir() {
            home_dir()
        } else {
            None
        };
        let r = self.ssh_invocation_with(&home);
        proof {
            if !identity_needs_home(*self) {
                lemma_identity_without_home(*self, option_view(home));
            }
        }
        assert(spec_invocation(*self, option_view(home)) == invocation_result(r));
        r
    }
}

/// Without a `~` in the identity file, the home directory plays no part.
pub proof fn lemma_identity_without_home(s: Server, h: Option<Seq<u8>>)
    requires
        !identity_needs_home(s),
    ensures
        expanded_identity(s, h) == expanded_identity(s, None),
        spec_preview(s, h) == spec_preview(s, None),
        spec_invocation(s, h) == spec_invocation(s, None),
{
}

} // verus!

verus! {

// ---------------------------------------------------------------------------
// Laws of the server list.

/// The keys a server claims: each of its name candidates, normalized.
pub open spec fn server_keys(s: Server) -> Seq<Seq<char>> {
    name_candidates(s).map_values(|c: Seq<char>| normalize(c))
}

proof fn lemma_add_candidates_ok(
    name: Seq<char>,
    known: Seq<Seq<char>>,
    cands: Seq<Seq<char>>,
    k: Seq<Seq<char>>,
)
    requires
        add_candidates(name, known, cands) == Ok::<Seq<Seq<char>>, ConfigErrorModel>(k),
    ensures
        k == known + cands.map_values(|c: Seq<char>| normalize(c)),
        forall|i: int| 0 <= i < cands.len() ==> !known.contains(normalize(#[trigger] cands[i])),
    decreases cands.len(),
{
    if cands.len() == 0 {
        assert(known + cands.map_values(|c: Seq<char>| normalize(c)) =~= known);
    } else {
        let p = cands.drop_last();
        match add_candidates(name, known, p) {
            Ok(k1) => {
                lemma_add_candidates_ok(name, known, p, k1);
                assert(k =~= k1.push(normalize(cands.last())));
                assert(k =~= known + cands.map_values(|c: Seq<char>| normalize(c)));
                assert forall|i: int| 0 <= i < cands.len() implies !known.contains(
                    normalize(#[trigger] cands[i]),
                ) by {
                    if i < cands.len() - 1 {
                        assert(cands[i] == p[i]);
                    } else {
                        if known.contains(normalize(cands[i])) {
                            let w = choose|w: int|
                                0 <= w < known.len() && known[w] == normalize(cands[i]);
                            assert(k1[w] == known[w]);
                        }
                    }
                }
            },
            Err(_) => {},
        }
    }
}

proof fn lemma_check_servers_ok(servers: Seq<Server>, k: Seq<Seq<char>>)
    requires
        check_servers(servers) == Ok::<Seq<Seq<char>>, ConfigErrorModel>(k),
    ensures
        forall|j: int, c: Seq<char>|
            0 <= j < servers.len() && #[trigger] server_keys(servers[j]).contains(c) ==> k.contains(
                c,
            ),
        forall|j1: int, j2: int, c: Seq<char>|
            0 <= j1 < servers.len() && 0 <= j2 < servers.len() && j1 != j2
                && #[trigger] server_keys(servers[j1]).contains(c) ==> !#[trigger] server_keys(
                servers[j2],
            ).contains(c),
    decreases servers.len(),
{
    if servers.len() == 0 {
    } else {
        let p = servers.drop_last();
        let last = servers.last();
        match check_servers(p) {
            Ok(k1) => {
                lemma_check_servers_ok(p, k1);
                let name = trim(last.name@);
                let cands = name_candidates(last);
                assert(add_candidates(name, k1, cands) == Ok::<
                    Seq<Seq<char>>,
                    ConfigErrorModel,
                >(k));
                lemma_add_candidates_ok(name, k1, cands, k);
                let lk = server_keys(last);
                assert(k =~= k1 + lk);
                assert forall|j: int, c: Seq<char>|
                    0 <= j < servers.len() && #[trigger] server_keys(servers[j]).contains(
                        c,
                    ) implies k.contains(c) by {
                    if j < servers.len() - 1 {
                        assert(servers[j] == p[j]);
                        assert(server_keys(p[j]).contains(c));
                        let w = choose|w: int| 0 <= w < k1.len() && k1[w] == c;
                        assert(k[w] == c);
                    } else {
                        let w = choose|w: int| 0 <= w < lk.len() && lk[w] == c;
                        assert(k[k1.len() + w] == c);
                    }
                }
                assert forall|j1: int, j2: int, c: Seq<char>|
                    0 <= j1 < servers.len() && 0 <= j2 < servers.len() && j1 != j2
                        && #[trigger] server_keys(servers[j1]).contains(
                        c,
                    ) implies !#[trigger] server_keys(servers[j2]).contains(c) by {
                    let n = servers.len() - 1;
                    if j1 < n && j2 < n {
                        assert(servers[j1] == p[j1]);
                        assert(servers[j2] == p[j2]);
                    } else if server_keys(servers[j2]).contains(c) {
                        let (a, b) = if j1 == n {
                            (j2, j1)
                        } else {
                            (j1, j2)
                        };
                        assert(servers[a] == p[a]);
                        assert(server_keys(p[a]).contains(c));
                        assert(k1.contains(c));
                        let w = choose|w: int| 0 <= w < lk.len() && lk[w] == c;
                        assert(lk[w] == normalize(cands[w]));
                        assert(!k1.contains(normalize(cands[w])));
                    }
                }
            },
            Err(_) => {},
        }
    }
}

/// A key that selects a server is one of the keys it claims.
proof fn lemma_match_is_key(s: Server, key: Seq<char>)
    requires
        server_matches(s, key),
    ensures
        server_keys(s).contains(key),
{
    let keys = server_keys(s);
    if normalize(s.name@) == key {
        crate::text::lemma_trim_idempotent(s.name@);
        assert(keys[0] == normalize(trim(s.name@)));
        assert(keys[0] == key);
    } else {
        let k = choose|k: int| 0 <= k < s.aliases@.len() && normalize(#[trigger] s.aliases@[k]@) == key;
        assert(name_candidates(s)[k + 1] == s.aliases@[k]@);
        assert(keys[k + 1] == key);
    }
}

/// In a configuration that validates, no two servers answer to the same
/// name or alias: every query selects at most one server.
pub proof fn lemma_validated_lookup_unique(servers: Seq<Server>, key: Seq<char>, j1: int, j2: int)
    requires
        spec_validate(servers) is Ok,
        0 <= j1 < servers.len(),
        0 <= j2 < servers.len(),
        server_matches(servers[j1], key),
        server_matches(servers[j2], key),
    ensures
        j1 == j2,
{
    let k = check_servers(servers)->Ok_0;
    lemma_check_servers_ok(servers, k);
    lemma_match_is_key(servers[j1], key);
    lemma_match_is_key(servers[j2], key);
}

/// In a configuration that validates, looking a server up by its own name,
/// or by any of its aliases, finds that server.
pub proof fn lemma_validated_find_own_name(servers: Seq<Server>, i: int, query: Seq<char>)
    requires
        spec_validate(servers) is Ok,
        0 <= i < servers.len(),
        query == servers[i].name@ || views(servers[i].aliases@).contains(query),
    ensures
        first_match(servers, normalize(query), i),
{
    let s = servers[i];
    if query != s.name@ {
        let k = choose|k: int| 0 <= k < s.aliases@.len() && #[trigger] views(s.aliases@)[k] == query;
        assert(normalize(s.aliases@[k]@) == normalize(query));
    }
    assert(server_matches(s, normalize(query)));
    assert forall|j: int| 0 <= j < i implies !server_matches(#[trigger] servers[j], normalize(query)) by {
        if server_matches(servers[j], normalize(query)) {
            lemma_validated_lookup_unique(servers, normalize(query), i, j);
        }
    }
}

} // verus!

verus! {

/// The words a shell would read as given: each quoted as needed.
pub open spec fn quote_all(words: Seq<Seq<char>>) -> Seq<Seq<char>> {
    words.map_values(|w: Seq<char>| shell_quote_spec(w))
}

/// `SSHPASS=***` in front of the command when a password is passed through
/// the environment; nothing otherwise.
pub open spec fn masked_env(s: Server) -> Seq<Seq<char>> {
    if uses_password(s) {
        seq!["SSHPASS=***"@]
    } else {
        Seq::empty()
    }
}

proof fn lemma_decimal_digits(n: nat)
    ensures
        all_shell_safe(decimal(n)),
    decreases n,
{
    if n < 10 {
        assert(decimal(n)[0] == digit_char(n));
    } else {
        lemma_decimal_digits(n / 10);
        let d = decimal(n);
        assert forall|i: int| 0 <= i < d.len() implies is_shell_safe(#[trigger] d[i]) by {
            if i < d.len() - 1 {
                assert(d[i] == decimal(n / 10)[i]);
            } else {
                assert(d[i] == digit_char(n % 10));
            }
        }
    }
}

proof fn lemma_quote_all_add(a: Seq<Seq<char>>, b: Seq<Seq<char>>)
    ensures
        quote_all(a + b) == quote_all(a) + quote_all(b),
{
    assert(quote_all(a + b) =~= quote_all(a) + quote_all(b));
}

proof fn lemma_quote_option_args(opts: Seq<Seq<char>>)
    ensures
        quote_all(option_args(opts)) == quoted_option_args(opts),
    decreases opts.len(),
{
    if opts.len() > 0 {
        lemma_quote_option_args(opts.drop_last());
        let o = seq!['-', 'o'];
        assert(all_shell_safe(o));
        lemma_quote_all_add(option_args(opts.drop_last()), seq![o, opts.last()]);
        assert(quote_all(seq![o, opts.last()]) =~= seq![o, shell_quote_spec(opts.last())]);
    } else {
        assert(quote_all(option_args(opts)) =~= Seq::<Seq<char>>::empty());
    }
}

/// The printed preview is the command that runs, with each word quoted for a
/// shell and the password replaced by `SSHPASS=***`: `--dry-run` shows what
/// would be executed, and never the password.
#[verifier::rlimit(60)]
pub proof fn lemma_preview_matches_invocation(s: Server, h: Option<Seq<u8>>)
    ensures
        match (spec_invocation(s, h), spec_preview(s, h)) {
            (Ok(inv), Ok(p)) => p == join(
                masked_env(s) + quote_all(displays(seq![ArgModel::Text(inv.program)] + inv.args)),
                seq![' '],
            ),
            (Err(e1), Err(e2)) => e1 == e2,
            _ => false,
        },
{
    match expanded_identity(s, h) {
        Ok(id) => {
            reveal_strlit("sshpass");
            reveal_strlit("ssh");
            reveal_strlit("-e");
            let dash_e = "-e"@;
            let ssh = "ssh"@;
            let sshpass = "sshpass"@;
            assert(all_shell_safe(dash_e));
            assert(all_shell_safe(ssh));
            assert(all_shell_safe(sshpass));
            lemma_decimal_digits(s.port as nat);
            assert(all_shell_safe(seq!['-', 'p']));
            assert(all_shell_safe(seq!['-', 'i']));
            assert(quote_all(port_args(s)) =~= port_args(s));
            let pw_words: Seq<Seq<char>> = if uses_password(s) {
                seq![dash_e, ssh]
            } else {
                Seq::empty()
            };
            let id_words: Seq<Seq<char>> = match id {
                Some(p) => seq![seq!['-', 'i'], path_text(p)],
                None => Seq::empty(),
            };
            let id_args: Seq<ArgModel> = match id {
                Some(p) => seq![ArgModel::Text(seq!['-', 'i']), ArgModel::Path(p)],
                None => Seq::empty(),
            };
            let opts = option_args(views(s.ssh_options@));
            let tail = seq![spec_target(s)];
            let args = spec_ssh_args(s, id);
            assert(password_words(s) == pw_words);
            assert(displays(id_args) =~= id_words);
            assert(displays(seq![ArgModel::Text(spec_program(s))] + texts(pw_words) + texts(
                port_args(s),
            ) + id_args + texts(opts) + texts(tail)) =~= seq![spec_program(s)] + pw_words
                + port_args(s) + id_words + opts + tail);
            assert(seq![ArgModel::Text(spec_program(s))] + args =~= seq![ArgModel::Text(
                spec_program(s),
            )] + texts(pw_words) + texts(port_args(s)) + id_args + texts(opts) + texts(tail));
            let all = displays(seq![ArgModel::Text(spec_program(s))] + args);
            assert(all =~= seq![spec_program(s)] + pw_words + port_args(s) + id_words + opts + tail);
            lemma_quote_all_add(seq![spec_program(s)] + pw_words + port_args(s) + id_words + opts, tail);
            lemma_quote_all_add(seq![spec_program(s)] + pw_words + port_args(s) + id_words, opts);
            lemma_quote_all_add(seq![spec_program(s)] + pw_words + port_args(s), id_words);
            lemma_quote_all_add(seq![spec_program(s)] + pw_words, port_args(s));
            lemma_quote_all_add(seq![spec_program(s)], pw_words);
            lemma_quote_option_args(views(s.ssh_options@));
            assert(quote_all(seq![spec_program(s)]) =~= seq![spec_program(s)]);
            assert(quote_all(pw_words) =~= pw_words);
            assert(quote_all(tail) =~= seq![shell_quote_spec(spec_target(s))]);
            match id {
                Some(p) => {
                    assert(quote_all(id_words) =~= seq![seq!['-', 'i'], shell_quote_spec(path_text(p))]);
                },
                None => {
                    assert(quote_all(id_words) =~= id_words);
                },
            }
            assert(masked_env(s) + quote_all(all) =~= spec_preview_parts(s, id));
        },
        Err(_) => {},
    }
}

/// Two entries that differ only in the value of their password print the
/// same preview: the password never reaches the printed command.
pub proof fn lemma_preview_hides_password(s: Server, t: Server, h: Option<Seq<u8>>)
    requires
        s.password is Some,
        t.password is Some,
        t == (Server { password: t.password, ..s }),
    ensures
        spec_preview(s, h) == spec_preview(t, h),
{
}

} // verus!

verus! {

proof fn lemma_check_server_ok_fields(s: Server, known: Seq<Seq<char>>)
    requires
        check_server(s, known) is Ok,
    ensures
        trim(s.name@).len() > 0,
        trim(s.host@).len() > 0,
        trim(s.user@).len() > 0,
        s.password matches Some(p) ==> trim(p@).len() > 0,
{
}

/// Every entry of a configuration that validates has a name, a host and a
/// user that are not blank, and no blank password.
pub proof fn lemma_validated_entries_complete(servers: Seq<Server>, i: int)
    requires
        spec_validate(servers) is Ok,
        0 <= i < servers.len(),
    ensures
        trim(servers[i].name@).len() > 0,
        trim(servers[i].host@).len() > 0,
        trim(servers[i].user@).len() > 0,
        servers[i].password matches Some(p) ==> trim(p@).len() > 0,
    decreases servers.len(),
{
    let p = servers.drop_last();
    match check_servers(p) {
        Ok(k) => {
            if i == servers.len() - 1 {
                lemma_check_server_ok_fields(servers.last(), k);
            } else {
                assert(servers[i] == p[i]);
                if p.len() == 0 {
                } else {
                    lemma_validated_entries_complete(p, i);
                }
            }
        },
        Err(_) => {},
    }
}

} // verus!

verus! {

/// Where a POSIX shell stands while it reads a word: outside quotes, inside
/// single quotes, or inside double quotes.
pub enum QuoteState {
    Plain,
    Single,
    Double,
}

pub open spec fn prepend_word(w: Seq<char>, o: Option<Seq<char>>) -> Option<Seq<char>> {
    match o {
        Some(x) => Some(w + x),
        None => None,
    }
}

/// What a POSIX shell reads from `s` after quote removal, for the part of its
/// syntax that quoting needs: outside quotes only the characters of
/// `is_shell_safe`; inside single quotes every character but the closing
/// quote, literally; inside double quotes every character but the closing
/// quote, except `$`, a backquote and a backslash, which would expand.
/// `None` when `s` leaves that part (or ends inside quotes).
pub open spec fn sh_scan(s: Seq<char>, state: QuoteState) -> Option<Seq<char>>
    decreases s.len(),
{
    if s.len() == 0 {
        if state is Plain {
            Some(Seq::empty())
        } else {
            None
        }
    } else {
        let c = s[0];
        let rest = s.skip(1);
        match state {
            QuoteState::Plain => if c == '\'' {
                sh_scan(rest, QuoteState::Single)
            } else if c == '"' {
                sh_scan(rest, QuoteState::Double)
            } else if is_shell_safe(c) {
                prepend_word(seq![c], sh_scan(rest, QuoteState::Plain))
            } else {
                None
            },
            QuoteState::Single => if c == '\'' {
                sh_scan(rest, QuoteState::Plain)
            } else {
                prepend_word(seq![c], sh_scan(rest, QuoteState::Single))
            },
            QuoteState::Double => if c == '"' {
                sh_scan(rest, QuoteState::Plain)
            } else if c == '$' || c == '`' || c == '\\' {
                None
            } else {
                prepend_word(seq![c], sh_scan(rest, QuoteState::Double))
            },
        }
    }
}

/// The single word a shell reads from `s`: none from empty text.
pub open spec fn sh_word(s: Seq<char>) -> Option<Seq<char>> {
    if s.len() == 0 {
        None
    } else {
        sh_scan(s, QuoteState::Plain)
    }
}

proof fn lemma_scan_safe(v: Seq<char>, t: Seq<char>)
    requires
        all_shell_safe(v),
    ensures
        sh_scan(v + t, QuoteState::Plain) == prepend_word(v, sh_scan(t, QuoteState::Plain)),
    decreases v.len(),
{
    if v.len() == 0 {
        assert(v + t =~= t);
        match sh_scan(t, QuoteState::Plain) {
            Some(x) => assert(v + x =~= x),
            None => {},
        }
    } else {
        let c = v.last();
        let u = v.drop_last();
        assert(all_shell_safe(u)) by {
            assert forall|i: int| 0 <= i < u.len() implies is_shell_safe(#[trigger] u[i]) by {
                assert(u[i] == v[i]);
            }
        }
        assert(is_shell_safe(v[v.len() - 1]));
        let t2 = seq![c] + t;
        lemma_scan_safe(u, t2);
        assert(u + t2 =~= v + t);
        assert(t2[0] == c);
        assert(t2.skip(1) =~= t);
        match sh_scan(t, QuoteState::Plain) {
            Some(x) => assert(u + (seq![c] + x) =~= v + x),
            None => {},
        }
    }
}

proof fn lemma_scan_piece(c: char, t: Seq<char>)
    ensures
        sh_scan(quote_piece(c) + t, QuoteState::Single) == prepend_word(
            seq![c],
            sh_scan(t, QuoteState::Single),
        ),
{
    let s = quote_piece(c) + t;
    if c == '\'' {
        let s1 = s.skip(1);
        let s2 = s1.skip(1);
        let s3 = s2.skip(1);
        let s4 = s3.skip(1);
        assert(s[0] == '\'');
        assert(s1[0] == '"');
        assert(s2[0] == '\'');
        assert(s3[0] == '"');
        assert(s4[0] == '\'');
        assert(s4.skip(1) =~= t);
        assert(sh_scan(s4, QuoteState::Plain) == sh_scan(t, QuoteState::Single));
        assert(sh_scan(s3, QuoteState::Double) == sh_scan(s4, QuoteState::Plain));
        assert(sh_scan(s2, QuoteState::Double) == prepend_word(
            seq!['\''],
            sh_scan(s3, QuoteState::Double),
        ));
        assert(sh_scan(s1, QuoteState::Plain) == sh_scan(s2, QuoteState::Double));
        assert(sh_scan(s, QuoteState::Single) == sh_scan(s1, QuoteState::Plain));
    } else {
        assert(s[0] == c);
        assert(s.skip(1) =~= t);
    }
}

proof fn lemma_scan_escaped(v: Seq<char>, t: Seq<char>)
    ensures
        sh_scan(escape_quotes(v) + t, QuoteState::Single) == prepend_word(
            v,
            sh_scan(t, QuoteState::Single),
        ),
    decreases v.len(),
{
    if v.len() == 0 {
        assert(escape_quotes(v) + t =~= t);
        match sh_scan(t, QuoteState::Single) {
            Some(x) => assert(v + x =~= x),
            None => {},
        }
    } else {
        let c = v.last();
        let u = v.drop_last();
        let t2 = quote_piece(c) + t;
        lemma_scan_escaped(u, t2);
        assert(escape_quotes(u) + t2 =~= escape_quotes(v) + t);
        lemma_scan_piece(c, t);
        match sh_scan(t, QuoteState::Single) {
            Some(x) => assert(u + (seq![c] + x) =~= v + x),
            None => {},
        }
    }
}

proof fn lemma_escape_len(v: Seq<char>)
    ensures
        escape_quotes(v).len() >= v.len(),
    decreases v.len(),
{
    if v.len() > 0 {
        lemma_escape_len(v.drop_last());
    }
}

/// A shell reads the quoted form of any non-empty word back as exactly that
/// word, and the word is written as it is precisely when every character of
/// it is safe outside quotes.
pub proof fn lemma_shell_quote_reads_back(v: Seq<char>)
    requires
        v.len() > 0,
    ensures
        sh_word(shell_quote_spec(v)) == Some(v),
        (shell_quote_spec(v) == v) == all_shell_safe(v),
{
    if all_shell_safe(v) {
        lemma_scan_safe(v, Seq::empty());
        assert(v + Seq::<char>::empty() =~= v);
        assert(sh_scan(Seq::<char>::empty(), QuoteState::Plain) == Some(Seq::<char>::empty()));
        assert(v + Seq::<char>::empty() =~= v);
    } else {
        let q = seq!['\''];
        let s = q + escape_quotes(v) + q;
        assert(s[0] == '\'');
        assert(s.skip(1) =~= escape_quotes(v) + q);
        lemma_scan_escaped(v, q);
        assert(q[0] == '\'');
        assert(q.skip(1) =~= Seq::<char>::empty());
        assert(v + Seq::<char>::empty() =~= v);
        lemma_escape_len(v);
        assert(s.len() > v.len());
    }
}

} // verus!

verus! {

/// The `j`-th key a server claims once trimmed and lowercased: its name for
/// `j == 0`, its `j - 1`-th alias after that.
pub open spec fn claimed_key(s: Server, j: int) -> Seq<char> {
    if j == 0 {
        normalize(s.name@)
    } else {
        normalize(s.aliases@[j - 1]@)
    }
}

/// The keys of the servers, one after the other.
spec fn flat_keys(ss: Seq<Server>) -> Seq<Seq<char>>
    decreases ss.len(),
{
    if ss.len() == 0 {
        Seq::empty()
    } else {
        flat_keys(ss.drop_last()) + server_keys(ss.last())
    }
}

proof fn lemma_server_keys_claimed(s: Server, j: int)
    requires
        0 <= j <= s.aliases@.len(),
    ensures
        server_keys(s).len() == s.aliases@.len() + 1,
        server_keys(s)[j] == claimed_key(s, j),
{
    if j == 0 {
        crate::text::lemma_trim_idempotent(s.name@);
    } else {
        assert(name_candidates(s)[j] == s.aliases@[j - 1]@);
    }
}

proof fn lemma_flat_member(ss: Seq<Server>, w: int)
    requires
        0 <= w < flat_keys(ss).len(),
    ensures
        exists|i: int, j: int|
            0 <= i < ss.len() && 0 <= j < server_keys(ss[i]).len() && flat_keys(ss)[w]
                == #[trigger] server_keys(ss[i])[j],
    decreases ss.len(),
{
    let p = ss.drop_last();
    let n = flat_keys(p).len();
    if w < n {
        lemma_flat_member(p, w);
        let (i, j) = choose|i: int, j: int|
            0 <= i < p.len() && 0 <= j < server_keys(p[i]).len() && flat_keys(p)[w]
                == #[trigger] server_keys(p[i])[j];
        assert(ss[i] == p[i]);
        assert(flat_keys(ss)[w] == server_keys(ss[i])[j]);
    } else {
        let j = w - n;
        assert(flat_keys(ss)[w] == server_keys(ss[ss.len() - 1])[j]);
    }
}

proof fn lemma_add_candidates_complete(
    name: Seq<char>,
    known: Seq<Seq<char>>,
    cands: Seq<Seq<char>>,
)
    requires
        forall|i: int| 0 <= i < cands.len() ==> normalize(#[trigger] cands[i]).len() > 0,
        forall|i: int| 0 <= i < cands.len() ==> !known.contains(normalize(#[trigger] cands[i])),
        forall|i: int, j: int|
            0 <= i < j < cands.len() ==> normalize(#[trigger] cands[i]) != normalize(
                #[trigger] cands[j],
            ),
    ensures
        add_candidates(name, known, cands) == Ok::<Seq<Seq<char>>, ConfigErrorModel>(
            known + cands.map_values(|c: Seq<char>| normalize(c)),
        ),
    decreases cands.len(),
{
    if cands.len() == 0 {
        assert(known + cands.map_values(|c: Seq<char>| normalize(c)) =~= known);
    } else {
        let p = cands.drop_last();
        assert forall|i: int| 0 <= i < p.len() implies normalize(#[trigger] p[i]).len() > 0 by {
            assert(p[i] == cands[i]);
        }
        assert forall|i: int| 0 <= i < p.len() implies !known.contains(normalize(#[trigger] p[i])) by {
            assert(p[i] == cands[i]);
        }
        assert forall|i: int, j: int| 0 <= i < j < p.len() implies normalize(#[trigger] p[i])
            != normalize(#[trigger] p[j]) by {
            assert(p[i] == cands[i]);
            assert(p[j] == cands[j]);
        }
        lemma_add_candidates_complete(name, known, p);
        let k1 = known + p.map_values(|c: Seq<char>| normalize(c));
        let last = cands.last();
        assert(normalize(cands[cands.len() - 1]).len() > 0);
        assert(!known.contains(normalize(cands[cands.len() - 1])));
        if k1.contains(normalize(last)) {
            let w = choose|w: int| 0 <= w < k1.len() && k1[w] == normalize(last);
            if w < known.len() {
                assert(known[w] == k1[w]);
            } else {
                let i = w - known.len();
                assert(k1[w] == normalize(p[i]));
                assert(p[i] == cands[i]);
                assert(normalize(cands[i]) != normalize(cands[cands.len() - 1]));
            }
        }
        assert(k1.push(normalize(last)) =~= known + cands.map_values(|c: Seq<char>| normalize(c)));
    }
}

proof fn lemma_check_servers_complete(ss: Seq<Server>)
    requires
        forall|i: int|
            0 <= i < ss.len() ==> {
                &&& trim(#[trigger] ss[i].name@).len() > 0
                &&& trim(ss[i].host@).len() > 0
                &&& trim(ss[i].user@).len() > 0
                &&& (ss[i].password matches Some(p) ==> trim(p@).len() > 0)
            },
        forall|i: int, j: int|
            0 <= i < ss.len() && 0 <= j < server_keys(ss[i]).len() ==> (#[trigger] server_keys(
                ss[i],
            )[j]).len() > 0,
        forall|i1: int, j1: int, i2: int, j2: int|
            0 <= i1 < ss.len() && 0 <= i2 < ss.len() && 0 <= j1 < server_keys(ss[i1]).len() && 0
                <= j2 < server_keys(ss[i2]).len() && (i1 != i2 || j1 != j2) ==> #[trigger] server_keys(
                ss[i1],
            )[j1] != #[trigger] server_keys(ss[i2])[j2],
    ensures
        check_servers(ss) == Ok::<Seq<Seq<char>>, ConfigErrorModel>(flat_keys(ss)),
    decreases ss.len(),
{
    if ss.len() > 0 {
        let p = ss.drop_last();
        let n = ss.len() - 1;
        assert forall|i: int| 0 <= i < p.len() implies {
            &&& trim(#[trigger] p[i].name@).len() > 0
            &&& trim(p[i].host@).len() > 0
            &&& trim(p[i].user@).len() > 0
            &&& (p[i].password matches Some(q) ==> trim(q@).len() > 0)
        } by {
            assert(p[i] == ss[i]);
        }
        assert forall|i: int, j: int|
            0 <= i < p.len() && 0 <= j < server_keys(p[i]).len() implies (#[trigger] server_keys(
                p[i],
            )[j]).len() > 0 by {
            assert(p[i] == ss[i]);
        }
        assert forall|i1: int, j1: int, i2: int, j2: int|
            0 <= i1 < p.len() && 0 <= i2 < p.len() && 0 <= j1 < server_keys(p[i1]).len() && 0
                <= j2 < server_keys(p[i2]).len() && (i1 != i2 || j1 != j2) implies #[trigger] server_keys(
                p[i1],
            )[j1] != #[trigger] server_keys(p[i2])[j2] by {
            assert(p[i1] == ss[i1]);
            assert(p[i2] == ss[i2]);
        }
        lemma_check_servers_complete(p);
        let k1 = flat_keys(p);
        let last = ss.last();
        let cands = name_candidates(last);
        let keys = server_keys(last);
        assert(ss[n] == last);
        assert forall|i: int| 0 <= i < cands.len() implies normalize(#[trigger] cands[i]).len()
            > 0 by {
            assert(keys[i] == normalize(cands[i]));
        }
        assert forall|i: int| 0 <= i < cands.len() implies !k1.contains(
            normalize(#[trigger] cands[i]),
        ) by {
            assert(keys[i] == normalize(cands[i]));
            if k1.contains(normalize(cands[i])) {
                let w = choose|w: int| 0 <= w < k1.len() && k1[w] == normalize(cands[i]);
                lemma_flat_member(p, w);
                let (a, b) = choose|a: int, b: int|
                    0 <= a < p.len() && 0 <= b < server_keys(p[a]).len() && flat_keys(p)[w]
                        == #[trigger] server_keys(p[a])[b];
                assert(p[a] == ss[a]);
                assert(server_keys(ss[a])[b] != server_keys(ss[n])[i]);
            }
        }
        assert forall|i: int, j: int| 0 <= i < j < cands.len() implies normalize(
            #[trigger] cands[i],
        ) != normalize(#[trigger] cands[j]) by {
            assert(keys[i] == normalize(cands[i]));
            assert(keys[j] == normalize(cands[j]));
            assert(server_keys(ss[n])[i] != server_keys(ss[n])[j]);
        }
        lemma_add_candidates_complete(trim(last.name@), k1, cands);
        assert(check_servers(p) == Ok::<Seq<Seq<char>>, ConfigErrorModel>(k1));
        assert(check_server(last, k1) == Ok::<Seq<Seq<char>>, ConfigErrorModel>(k1 + keys));
    }
}

/// A configuration validates whenever nothing is wrong with it: at least one
/// server; every name, host and user not blank; every password absent or not
/// blank; and every name and alias, trimmed and lowercased, not blank and
/// different from every other name and alias of any server.
pub proof fn lemma_validate_complete(servers: Seq<Server>)
    requires
        servers.len() > 0,
        forall|i: int|
            0 <= i < servers.len() ==> {
                &&& trim(#[trigger] servers[i].name@).len() > 0
                &&& trim(servers[i].host@).len() > 0
                &&& trim(servers[i].user@).len() > 0
                &&& (servers[i].password matches Some(p) ==> trim(p@).len() > 0)
            },
        forall|i: int, j: int|
            0 <= i < servers.len() && 0 <= j <= servers[i].aliases@.len() ==> (#[trigger] claimed_key(
                servers[i],
                j,
            )).len() > 0,
        forall|i1: int, j1: int, i2: int, j2: int|
            0 <= i1 < servers.len() && 0 <= i2 < servers.len() && 0 <= j1
                <= servers[i1].aliases@.len() && 0 <= j2 <= servers[i2].aliases@.len() && (i1 != i2
                || j1 != j2) ==> #[trigger] claimed_key(servers[i1], j1) != #[trigger] claimed_key(
                servers[i2],
                j2,
            ),
    ensures
        spec_validate(servers) == Ok::<(), ConfigErrorModel>(()),
{
    assert forall|i: int, j: int|
        0 <= i < servers.len() && 0 <= j < server_keys(servers[i]).len() implies (
        #[trigger] server_keys(servers[i])[j]).len() > 0 by {
        lemma_server_keys_claimed(servers[i], 0);
        lemma_server_keys_claimed(servers[i], j);
    }
    assert forall|i1: int, j1: int, i2: int, j2: int|
        0 <= i1 < servers.len() && 0 <= i2 < servers.len() && 0 <= j1 < server_keys(
            servers[i1],
        ).len() && 0 <= j2 < server_keys(servers[i2]).len() && (i1 != i2 || j1 != j2) implies #[trigger] server_keys(
        servers[i1],
    )[j1] != #[trigger] server_keys(servers[i2])[j2] by {
        lemma_server_keys_claimed(servers[i1], 0);
        lemma_server_keys_claimed(servers[i2], 0);
        lemma_server_keys_claimed(servers[i1], j1);
        lemma_server_keys_claimed(servers[i2], j2);
    }
    lemma_check_servers_complete(servers);
}

} // verus!

verus! {

/// With an identity file `~/rest`, the login passes `-i` followed by `rest`
/// joined onto the home directory it is given, and fails without one; the
/// identity file is then the only reason to ask for the home directory.
pub proof fn lemma_identity_under_home(s: Server, rest: Seq<char>, h: Seq<u8>)
    requires
        s.identity_file matches Some(p) && p@ == seq!['~', '/'] + rest,
    ensures
        identity_needs_home(s),
        spec_invocation(s, Some(h)) matches Ok(inv) && exists|k: int|
            0 <= k && k + 1 < inv.args.len() && inv.args[k] == ArgModel::Text(seq!['-', 'i'])
                && #[trigger] inv.args[k + 1] == ArgModel::Path(path_join(h, encode_utf8(rest))),
        spec_invocation(s, None) == Err::<InvocationModel, ConfigErrorModel>(
            ConfigErrorModel::TildeUnexpanded,
        ),
{
    crate::paths::lemma_tilde_expansion(rest, h, seq!['x'], None);
    let p = s.identity_file->Some_0;
    assert(p@ == seq!['~', '/'] + rest);
    let id = Some(path_join(h, encode_utf8(rest)));
    assert(expanded_identity(s, Some(h)) == Ok::<Option<Seq<u8>>, ConfigErrorModel>(id));
    let args = spec_ssh_args(s, id);
    let k: int = (texts(password_words(s)).len() + texts(port_args(s)).len()) as int;
    assert(args[k] == ArgModel::Text(seq!['-', 'i']));
    assert(args[k + 1] == ArgModel::Path(path_join(h, encode_utf8(rest))));
    let inv = spec_invocation(s, Some(h))->Ok_0;
    assert(inv.args == args);
    assert(k + 1 < inv.args.len());
    assert(inv.args[k + 1] == ArgModel::Path(path_join(h, encode_utf8(rest))));
    assert(needs_home(encode_utf8(seq!['~', '/'] + rest))) by {
        assert(expand_path(encode_utf8(seq!['~', '/'] + rest), None) is Err);
    }
}

} // verus!
