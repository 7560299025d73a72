//! Filesystem paths, held as the bytes of the operating system's path:
//! joining, `~` expansion, display, and the well-known locations under the
//! home directory.
use vstd::prelude::*;
use vstd::slice::slice_to_vec;
use vstd::string::{StrSliceExecFns, StringExecFns};
use vstd::utf8::{decode_utf8, encode_utf8, valid_utf8};
use crate::error::{ConfigError, ConfigErrorModel};
use crate::text::{chars_of, string_from_chars};

verus! {

/// The text a path shows when displayed: its bytes decoded as UTF-8, with
/// each invalid sequence replaced by U+FFFD.
pub uninterp spec fn lossy_utf8(bytes: Seq<u8>) -> Seq<char>;

/// The text of a path: its bytes decoded when they are valid UTF-8, the lossy
/// decoding otherwise.
pub open spec fn path_text(bytes: Seq<u8>) -> Seq<char> {
    if valid_utf8(bytes) {
        decode_utf8(bytes)
    } else {
        lossy_utf8(bytes)
    }
}

/// `PathBuf::push` on Unix: an absolute `rel` replaces `base`; otherwise a
/// separator is put between them unless `base` is empty or already ends in one.
pub open spec fn path_join(base: Seq<u8>, rel: Seq<u8>) -> Seq<u8> {
    if rel.len() > 0 && rel[0] == 47u8 {
        rel
    } else if base.len() > 0 && base.last() != 47u8 {
        base.push(47u8) + rel
    } else {
        base + rel
    }
}

/// The text is `~` or starts with `~/`.
pub open spec fn tilde_text(raw: Seq<char>) -> bool {
    raw =~= seq!['~'] || (raw.len() >= 2 && raw[0] == '~' && raw[1] == '/')
}

/// Expanding the path needs the home directory: as text it is `~` or starts with `~/`.
pub open spec fn needs_home(path: Seq<u8>) -> bool {
    tilde_text(path_text(path))
}

/// Read as text, `~` becomes the home directory and `~/rest` becomes `home`
/// joined with `rest`; any other path is kept byte for byte.
pub open spec fn expand_path(path: Seq<u8>, home: Option<Seq<u8>>) -> Result<
    Seq<u8>,
    ConfigErrorModel,
> {
    let raw = path_text(path);
    if raw =~= seq!['~'] {
        match home {
            Some(h) => Ok(h),
            None => Err(ConfigErrorModel::TildeUnexpanded),
        }
    } else if raw.len() >= 2 && raw[0] == '~' && raw[1] == '/' {
        match home {
            Some(h) => Ok(path_join(h, encode_utf8(raw.skip(2)))),
            None => Err(ConfigErrorModel::TildeUnexpanded),
        }
    } else {
        Ok(path)
    }
}

/// `<home>/.config/ashlogin/config.toml`.
pub open spec fn config_path_under(home: Seq<u8>) -> Seq<u8> {
    path_join(
        path_join(path_join(home, encode_utf8(".config"@)), encode_utf8("ashlogin"@)),
        encode_utf8("config.toml"@),
    )
}

/// `<home>/.ssh/known_hosts`.
pub open spec fn known_hosts_under(home: Seq<u8>) -> Seq<u8> {
    path_join(path_join(home, encode_utf8(".ssh"@)), encode_utf8("known_hosts"@))
}

pub open spec fn option_view(o: Option<Vec<u8>>) -> Option<Seq<u8>> {
    match o {
        Some(s) => Some(s@),
        None => None,
    }
}

pub open spec fn path_result(r: Result<Vec<u8>, ConfigError>) -> Result<Seq<u8>, ConfigErrorModel> {
    match r {
        Ok(v) => Ok(v@),
        Err(e) => Err(e@),
    }
}

/// Calls `dirs::home_dir` and hands back the path's bytes
/// (`OsString::into_encoded_bytes`; on Unix, the bytes of the path). The
/// answer comes from the `HOME` variable or the password database; which
/// directory it is, and whether there is one, is left unsaid. What is claimed
/// is what its documentation says for Linux and macOS: an empty `HOME` or an
/// empty home field is skipped, so a directory handed back is never empty.
#[verifier::external_body]
pub(crate) fn home_dir() -> (r: Option<Vec<u8>>)
    ensures
        r matches Some(h) ==> h@.len() > 0,
{
    dirs::home_dir().map(|p| p.into_os_string().into_encoded_bytes())
}

/// Calls `String::from_utf8_lossy`. Its result is named `lossy_utf8`; on
/// valid UTF-8 it is the decoded text, as its documentation says.
#[verifier::external_body]
pub(crate) fn display_bytes(bytes: &[u8]) -> (r: String)
    ensures
        r@ == lossy_utf8(bytes@),
        valid_utf8(bytes@) ==> r@ == decode_utf8(bytes@),
{
    String::from_utf8_lossy(bytes).into_owned()
}

/// The text a path shows when displayed.
pub fn display_path(path: &[u8]) -> (r: String)
    ensures
        r@ == path_text(path@),
{
    display_bytes(path)
}

/// The bytes of a text path.
pub fn text_path(s: &str) -> (r: Vec<u8>)
    ensures
        r@ == encode_utf8(s@),
{
    s.as_bytes_vec()
}

/// `base` joined with `rel` as `PathBuf::push` joins them.
pub fn join_path(base: &[u8], rel: &[u8]) -> (r: Vec<u8>)
    ensures
        r@ == path_join(base@, rel@),
{
    if rel.len() > 0 && rel[0] == 47u8 {
        return slice_to_vec(rel);
    }
    let mut out = slice_to_vec(base);
    if base.len() > 0 && base[base.len() - 1] != 47u8 {
        out.push(47u8);
    }
    let ghost start = out@;
    let mut k: usize = 0;
    while k < rel.len()
        invariant
            k <= rel.len(),
            out@ == start + rel@.take(k as int),
        decreases rel.len() - k,
    {
        out.push(rel[k]);
        assert(start + rel@.take(k + 1) =~= (start + rel@.take(k as int)).push(rel@[k as int]));
        k = k + 1;
    }
    assert(rel@.take(rel.len() as int) =~= rel@);
    out
}

/// Expands a leading `~` with the given home directory.
pub fn expand_user_path_with(path: &[u8], home: &Option<Vec<u8>>) -> (r: Result<
    Vec<u8>,
    ConfigError,
>)
    ensures
        path_result(r) == expand_path(path@, option_view(*home)),
{
    let raw = display_bytes(path);
    let v = chars_of(raw.as_str());
    if v.len() == 1 && v[0] == '~' {
        assert(raw@ =~= seq!['~']);
        match home {
            Some(h) => Ok(h.clone()),
            None => Err(ConfigError::TildeUnexpanded),
        }
    } else if v.len() >= 2 && v[0] == '~' && v[1] == '/' {
        assert(!(raw@ =~= seq!['~']));
        match home {
            Some(h) => {
                let rest = string_from_chars(&v, 2, v.len());
                assert(v@.subrange(2, v@.len() as int) =~= raw@.skip(2));
                let rest_bytes = rest.as_str().as_bytes_vec();
                Ok(join_path(h.as_slice(), rest_bytes.as_slice()))
            },
            None => Err(ConfigError::TildeUnexpanded),
        }
    } else {
        assert(!(raw@ =~= seq!['~']));
        Ok(slice_to_vec(path))
    }
}

/// Whether expanding `path` needs the home directory.
pub fn path_needs_home(path: &[u8]) -> (r: bool)
    ensures
        r == needs_home(path@),
{
    let raw = display_bytes(path);
    let v = chars_of(raw.as_str());
    let r = (v.len() == 1 && v[0] == '~') || (v.len() >= 2 && v[0] == '~' && v[1] == '/');
    assert(r == tilde_text(raw@));
    r
}

/// Expands a leading `~` in `path`, asking for the home directory only when
/// the path needs it.
pub fn expand_user_path(path: &[u8]) -> (r: Result<Vec<u8>, ConfigError>)
    ensures
        !needs_home(path@) ==> (r matches Ok(s) && s@ == path@),
        exists|h: Option<Seq<u8>>|
            (h matches Some(d) ==> d.len() > 0) && #[trigger] expand_path(path@, h) == path_result(
                r,
            ),
{
    let home = if path_needs_home(path) {
        home_dir()
    } else {
        None
    };
    let r = expand_user_path_with(path, &home);
    assert(expand_path(path@, option_view(home)) == path_result(r));
    r
}

/// `<home>/.config/ashlogin/config.toml` for the given home directory.
pub fn default_config_path_with(home: &Option<Vec<u8>>) -> (r: Result<Vec<u8>, ConfigError>)
    ensures
        match *home {
            Some(h) => r matches Ok(p) && p@ == config_path_under(h@),
            None => r matches Err(e) && e@ == ConfigErrorModel::HomeDirUnavailable,
        },
{
    match home {
        Some(h) => {
            let a = join_path(h.as_slice(), text_path(".config").as_slice());
            let b = join_path(a.as_slice(), text_path("ashlogin").as_slice());
            Ok(join_path(b.as_slice(), text_path("config.toml").as_slice()))
        },
        None => Err(ConfigError::HomeDirUnavailable),
    }
}

/// The default configuration file, `~/.config/ashlogin/config.toml`.
pub fn default_config_path() -> (r: Result<Vec<u8>, ConfigError>)
    ensures
        match r {
            Ok(p) => exists|h: Seq<u8>| h.len() > 0 && #[trigger] config_path_under(h) == p@,
            Err(e) => e@ == ConfigErrorModel::HomeDirUnavailable,
        },
{
    let home = home_dir();
    let r = default_config_path_with(&home);
    match r {
        Ok(p) => {
            let ghost h = home->0@;
            assert(config_path_under(h) == p@);
            Ok(p)
        },
        Err(e) => Err(e),
    }
}

/// `<home>/.ssh/known_hosts` for the given home directory.
pub fn known_hosts_path_with(home: &Option<Vec<u8>>) -> (r: Result<Vec<u8>, ConfigError>)
    ensures
        match *home {
            Some(h) => r matches Ok(p) && p@ == known_hosts_under(h@),
            None => r matches Err(e) && e@ == ConfigErrorModel::HomeDirUnavailable,
        },
{
    match home {
        Some(h) => {
            let a = join_path(h.as_slice(), text_path(".ssh").as_slice());
            Ok(join_path(a.as_slice(), text_path("known_hosts").as_slice()))
        },
        None => Err(ConfigError::HomeDirUnavailable),
    }
}

/// The user's `~/.ssh/known_hosts`.
pub fn known_hosts_path() -> (r: Result<Vec<u8>, ConfigError>)
    ensures
        match r {
            Ok(p) => exists|h: Seq<u8>| h.len() > 0 && #[trigger] known_hosts_under(h) == p@,
            Err(e) => e@ == ConfigErrorModel::HomeDirUnavailable,
        },
{
    let home = home_dir();
    let r = known_hosts_path_with(&home);
    match r {
        Ok(p) => {
            let ghost h = home->0@;
            assert(known_hosts_under(h) == p@);
            Ok(p)
        },
        Err(e) => Err(e),
    }
}

/// Confirms that a configuration path names a file. `is_file` is what the
/// filesystem said of `expanded`; `source` names where the path came from.
pub fn ensure_existing_file(expanded: Vec<u8>, source: &str, is_file: bool) -> (r: Result<
    Vec<u8>,
    ConfigError,
>)
    ensures
        is_file ==> (r matches Ok(p) && p@ == expanded@),
        !is_file ==> (r matches Err(e) && e@ == ConfigErrorModel::MissingFile(
            source@,
            path_text(expanded@),
        )),
{
    if is_file {
        Ok(expanded)
    } else {
        let shown = display_bytes(expanded.as_slice());
        Err(ConfigError::MissingFile { source: String::from_str(source), path: shown })
    }
}

} // verus!

verus! {

proof fn lemma_ascii_encoding(t: Seq<char>)
    requires
        vstd::utf8::is_ascii_chars(t),
    ensures
        encode_utf8(t) == t.map_values(|c: char| c as u8),
{
    vstd::utf8::is_ascii_chars_encode_utf8(t);
    assert(encode_utf8(t) =~= t.map_values(|c: char| c as u8));
}

/// For any home directory `h` (not empty, not ending in `/`), the default
/// configuration file is `h` followed by `/.config/ashlogin/config.toml`, and
/// the known hosts file is `h` followed by `/.ssh/known_hosts`.
pub proof fn lemma_well_known_paths(h: Seq<u8>)
    requires
        h.len() > 0,
        h.last() != 47u8,
    ensures
        config_path_under(h) == h + encode_utf8("/.config/ashlogin/config.toml"@),
        known_hosts_under(h) == h + encode_utf8("/.ssh/known_hosts"@),
{
    reveal_strlit(".config");
    reveal_strlit("ashlogin");
    reveal_strlit("config.toml");
    reveal_strlit(".ssh");
    reveal_strlit("known_hosts");
    reveal_strlit("/.config/ashlogin/config.toml");
    reveal_strlit("/.ssh/known_hosts");
    lemma_ascii_encoding(".config"@);
    lemma_ascii_encoding("ashlogin"@);
    lemma_ascii_encoding("config.toml"@);
    lemma_ascii_encoding(".ssh"@);
    lemma_ascii_encoding("known_hosts"@);
    lemma_ascii_encoding("/.config/ashlogin/config.toml"@);
    lemma_ascii_encoding("/.ssh/known_hosts"@);
    let a = path_join(h, encode_utf8(".config"@));
    assert(a == h.push(47u8) + encode_utf8(".config"@));
    let b = path_join(a, encode_utf8("ashlogin"@));
    assert(b == a.push(47u8) + encode_utf8("ashlogin"@));
    assert(config_path_under(h) == b.push(47u8) + encode_utf8("config.toml"@));
    assert(config_path_under(h) =~= h + encode_utf8("/.config/ashlogin/config.toml"@));
    let c = path_join(h, encode_utf8(".ssh"@));
    assert(c == h.push(47u8) + encode_utf8(".ssh"@));
    assert(known_hosts_under(h) == c.push(47u8) + encode_utf8("known_hosts"@));
    assert(known_hosts_under(h) =~= h + encode_utf8("/.ssh/known_hosts"@));
}

proof fn lemma_text_of_text(t: Seq<char>)
    ensures
        path_text(encode_utf8(t)) == t,
{
    broadcast use vstd::utf8::encode_utf8_valid_utf8, vstd::utf8::encode_utf8_decode_utf8;
}

/// `~` expansion on a path written as text: `~` is the home directory,
/// `~/rest` is `rest` joined onto it (for a relative ASCII `rest` under a home
/// not ending in `/`, the home, a `/` and `rest`), both fail without a home
/// directory, and a path not starting with `~` or `~/` is left as it is.
pub proof fn lemma_tilde_expansion(rest: Seq<char>, h: Seq<u8>, other: Seq<char>, home: Option<Seq<u8>>)
    requires
        !(other =~= seq!['~']),
        !(other.len() >= 2 && other[0] == '~' && other[1] == '/'),
    ensures
        expand_path(encode_utf8(seq!['~']), Some(h)) == Ok::<Seq<u8>, ConfigErrorModel>(h),
        expand_path(encode_utf8(seq!['~', '/'] + rest), Some(h)) == Ok::<Seq<u8>, ConfigErrorModel>(
            path_join(h, encode_utf8(rest)),
        ),
        (h.len() > 0 && h.last() != 47u8 && rest.len() > 0 && rest[0] != '/'
            && vstd::utf8::is_ascii_chars(rest)) ==> expand_path(
            encode_utf8(seq!['~', '/'] + rest),
            Some(h),
        ) == Ok::<Seq<u8>, ConfigErrorModel>(h + seq![47u8] + encode_utf8(rest)),
        expand_path(encode_utf8(seq!['~']), None) == Err::<Seq<u8>, ConfigErrorModel>(
            ConfigErrorModel::TildeUnexpanded,
        ),
        expand_path(encode_utf8(seq!['~', '/'] + rest), None) == Err::<Seq<u8>, ConfigErrorModel>(
            ConfigErrorModel::TildeUnexpanded,
        ),
        expand_path(encode_utf8(other), home) == Ok::<Seq<u8>, ConfigErrorModel>(encode_utf8(other)),
{
    let t = seq!['~', '/'] + rest;
    lemma_text_of_text(seq!['~']);
    lemma_text_of_text(t);
    lemma_text_of_text(other);
    assert(t.skip(2) =~= rest);
    assert(!(t =~= seq!['~'])) by {
        assert(t[1] == '/');
    }
    if h.len() > 0 && h.last() != 47u8 && rest.len() > 0 && rest[0] != '/'
        && vstd::utf8::is_ascii_chars(rest) {
        lemma_ascii_encoding(rest);
        let c = rest[0];
        assert('\0' <= c <= '\u{7f}');
        assert(c as u8 != 47u8) by {
            assert((c as u32) < 128);
            assert(c != '/');
        }
        assert(encode_utf8(rest)[0] == rest[0] as u8);
        assert(h.push(47u8) + encode_utf8(rest) =~= h + seq![47u8] + encode_utf8(rest));
    }
}

} // verus!
