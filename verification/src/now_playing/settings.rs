//! Where the now-playing producer reads and writes, and which MusicIndex API
//! it asks.
//!
//! Reading the environment, the optional settings file and canonicalizing
//! paths happen around this module; here are the rules that combine them.

use vstd::prelude::*;
use crate::paths::{join_path, path_join, text_after};
use crate::relay::{trim_end_char, trim_end_slashes};
use crate::text::{contains, has_substring, is_prefix, push_str, starts_with, string_eq_text, trim, trim_spec};

verus! {

/// The MusicIndex API used when none is configured.
pub const DEFAULT_BASE_URL: &'static str = "https://api.musicindex.org";

/// The file name of the now-playing line.
pub const DEFAULT_TXT_FILE_NAME: &'static str = "now-playing.txt";

/// The file name of the track metadata.
pub const DEFAULT_ID3_FILE_NAME: &'static str = "metadata.txt";

/// Why a setting was refused.
#[derive(Debug, PartialEq, Eq)]
pub enum SettingsError {
    EmptyPath,
    EmptyEndpoint,
    /// The endpoint is not a URL: the candidate URL and the parser's explanation.
    EndpointUnparsable { candidate: String, detail: String },
    UnsupportedScheme { scheme: String },
    MissingHost,
}

/// `path` with `~` expanded against `home`.
pub open spec fn home_expanded(path: Seq<char>, home: Seq<char>) -> Option<Seq<char>> {
    let t = trim_spec(path);
    if t.len() == 0 {
        None
    } else if t == "~"@ {
        Some(home)
    } else if is_prefix("~/"@, t) {
        Some(join_path(home, t.subrange("~/"@.len() as int, t.len() as int)))
    } else {
        Some(t)
    }
}

/// Expands `~` and `~/` at the start of a path against the home directory;
/// surrounding whitespace is ignored and a blank path is refused.
pub fn expand_home(path: &str, home_dir: &str) -> (r: Result<String, SettingsError>)
    ensures
        match home_expanded(path@, home_dir@) {
            None => r == Err::<String, SettingsError>(SettingsError::EmptyPath),
            Some(p) => r matches Ok(s) && s@ == p,
        },
{
    proof {
        reveal_strlit("~/");
    }
    let trimmed = trim(path);
    let t = trimmed.as_str();
    if t.is_empty() {
        return Err(SettingsError::EmptyPath);
    }
    if string_eq_text(t, "~") {
        return Ok(home_dir.to_owned());
    }
    if starts_with(t, "~/") {
        let rest = text_after(t, 2);
        return Ok(path_join(home_dir, rest.as_str()));
    }
    Ok(trimmed)
}

/// A path with `~` expanded, or nothing when it is blank.
pub fn expand_home_path(path: &str, home_dir: &str) -> (r: Option<String>)
    ensures
        match home_expanded(path@, home_dir@) {
            None => r is None,
            Some(p) => r matches Some(s) && s@ == p,
        },
{
    match expand_home(path, home_dir) {
        Ok(p) => Some(p),
        Err(_) => None,
    }
}

/// A path given on the command line, with `~` expanded; a path that cannot
/// be expanded is used as given.
pub fn resolve_path_override(path: &Option<String>, home_dir: &str) -> (r: Option<String>)
    ensures
        match path {
            None => r is None,
            Some(p) => r matches Some(s) && s@ == match home_expanded(p@, home_dir@) {
                Some(e) => e,
                None => p@,
            },
        },
{
    match path {
        None => None,
        Some(p) => match expand_home_path(p.as_str(), home_dir) {
            Some(expanded) => Some(expanded),
            None => Some(p.clone()),
        },
    }
}

/// Where output files go by default: under the runtime directory, or under
/// the home directory's `.cache` without one.
pub open spec fn default_output_path(runtime_dir: Option<Seq<char>>, home: Seq<char>) -> Seq<char> {
    let base = match runtime_dir {
        Some(r) => r,
        None => join_path(home, ".cache"@),
    };
    join_path(join_path(join_path(base, "musicindex-live-publisher"@), "mixxx"@), "nowplaying"@)
}

/// The default directory for output files.
pub fn default_output_dir(runtime_dir: &Option<String>, home_dir: &str) -> (r: String)
    ensures
        r@ == default_output_path(
            match runtime_dir {
                Some(d) => Some(d@),
                None => None,
            },
            home_dir@,
        ),
{
    let base = match runtime_dir {
        Some(d) => d.clone(),
        None => path_join(home_dir, ".cache"),
    };
    let a = path_join(base.as_str(), "musicindex-live-publisher");
    let b = path_join(a.as_str(), "mixxx");
    path_join(b.as_str(), "nowplaying")
}

/// The files the producer uses.
#[derive(Debug, PartialEq, Eq)]
pub struct OutputPaths {
    pub db_file: String,
    pub txt_file: String,
    pub id3_file: String,
}

/// The database and output files: command-line paths (with `~` expanded)
/// when given, else Mixxx's database under the home directory and the two
/// output files in the default output directory.
pub fn resolve_output_paths(
    db_file: &Option<String>,
    txt_file: &Option<String>,
    id3_file: &Option<String>,
    runtime_dir: &Option<String>,
    home_dir: &str,
) -> (r: OutputPaths)
    ensures
        r.db_file@ == match db_file {
            Some(p) => match home_expanded(p@, home_dir@) {
                Some(e) => e,
                None => p@,
            },
            None => join_path(join_path(home_dir@, ".mixxx"@), "mixxxdb.sqlite"@),
        },
        r.txt_file@ == match txt_file {
            Some(p) => match home_expanded(p@, home_dir@) {
                Some(e) => e,
                None => p@,
            },
            None => join_path(
                default_output_path(
                    match runtime_dir {
                        Some(d) => Some(d@),
                        None => None,
                    },
                    home_dir@,
                ),
                DEFAULT_TXT_FILE_NAME@,
            ),
        },
        r.id3_file@ == match id3_file {
            Some(p) => match home_expanded(p@, home_dir@) {
                Some(e) => e,
                None => p@,
            },
            None => join_path(
                default_output_path(
                    match runtime_dir {
                        Some(d) => Some(d@),
                        None => None,
                    },
                    home_dir@,
                ),
                DEFAULT_ID3_FILE_NAME@,
            ),
        },
{
    let db = match resolve_path_override(db_file, home_dir) {
        Some(p) => p,
        None => {
            let mixxx = path_join(home_dir, ".mixxx");
            path_join(mixxx.as_str(), "mixxxdb.sqlite")
        },
    };
    let out_dir = default_output_dir(runtime_dir, home_dir);
    let txt = match resolve_path_override(txt_file, home_dir) {
        Some(p) => p,
        None => path_join(out_dir.as_str(), DEFAULT_TXT_FILE_NAME),
    };
    let id3 = match resolve_path_override(id3_file, home_dir) {
        Some(p) => p,
        None => path_join(out_dir.as_str(), DEFAULT_ID3_FILE_NAME),
    };
    OutputPaths { db_file: db, txt_file: txt, id3_file: id3 }
}

/// The V4V music root before canonicalization: the command-line flag, else
/// the `V4V_MUSIC_DIR` environment variable, else the settings file's
/// `music_dir` (each with `~` expanded), else `V4Vmusic` in the home directory.
pub fn v4v_root_candidate(
    flag: &Option<String>,
    env_dir: &Option<String>,
    config_dir: &Option<String>,
    home_dir: &str,
) -> (r: Result<String, SettingsError>)
    ensures
        match (if flag is Some { *flag } else if env_dir is Some { *env_dir } else { *config_dir }) {
            Some(p) => match home_expanded(p@, home_dir@) {
                None => r == Err::<String, SettingsError>(SettingsError::EmptyPath),
                Some(e) => r matches Ok(s) && s@ == e,
            },
            None => r matches Ok(s) && s@ == join_path(home_dir@, "V4Vmusic"@),
        },
{
    let chosen = match flag {
        Some(p) => Some(p),
        None => match env_dir {
            Some(p) => Some(p),
            None => match config_dir {
                Some(p) => Some(p),
                None => None,
            },
        },
    };
    match chosen {
        Some(p) => expand_home(p.as_str(), home_dir),
        None => Ok(path_join(home_dir, "V4Vmusic")),
    }
}

/// What `url::Url::parse` makes of a candidate endpoint: its scheme, whether
/// it has a host, and its serialization; or the parser's error text.
pub uninterp spec fn url_summary(candidate: Seq<char>) -> Result<(Seq<char>, bool, Seq<char>), Seq<char>>;

/// Calls `reqwest::Url::parse` and reads the scheme, host and serialization
/// of the URL it parses.
#[verifier::external_body]
fn parse_endpoint(candidate: &str) -> (r: Result<(String, bool, String), String>)
    ensures
        match (r, url_summary(candidate@)) {
            (Ok((scheme, has_host, text)), Ok((s, h, t))) => scheme@ == s && has_host == h && text@ == t,
            (Err(e), Err(m)) => e@ == m,
            _ => false,
        },
{
    match reqwest::Url::parse(candidate) {
        Ok(url) => Ok((url.scheme().to_owned(), url.host_str().is_some(), url.as_str().to_owned())),
        Err(error) => Err(error.to_string()),
    }
}

/// A configured MusicIndex endpoint made canonical: trimmed, without
/// trailing slashes, with `https://` added when it names no scheme; it must
/// parse as an `http` or `https` URL with a host, and is written without a
/// trailing slash.
pub open spec fn endpoint_outcome(endpoint: Seq<char>) -> Result<Seq<char>, SettingsFault> {
    let trimmed = trim_end_char(trim_spec(endpoint), '/');
    let candidate = if has_substring(trimmed, "://"@) { trimmed } else { "https://"@ + trimmed };
    if trimmed.len() == 0 {
        Err(SettingsFault::EmptyEndpoint)
    } else {
        match url_summary(candidate) {
            Err(detail) => Err(SettingsFault::EndpointUnparsable(candidate, detail)),
            Ok((scheme, has_host, text)) => if !(scheme == "http"@ || scheme == "https"@) {
                Err(SettingsFault::UnsupportedScheme(scheme))
            } else if !has_host {
                Err(SettingsFault::MissingHost)
            } else {
                Ok(trim_end_char(text, '/'))
            },
        }
    }
}

/// The meaning of a [`SettingsError`], with its texts taken by value.
pub enum SettingsFault {
    EmptyPath,
    EmptyEndpoint,
    EndpointUnparsable(Seq<char>, Seq<char>),
    UnsupportedScheme(Seq<char>),
    MissingHost,
}

impl View for SettingsError {
    type V = SettingsFault;

    open spec fn view(&self) -> SettingsFault {
        match self {
            SettingsError::EmptyPath => SettingsFault::EmptyPath,
            SettingsError::EmptyEndpoint => SettingsFault::EmptyEndpoint,
            SettingsError::EndpointUnparsable { candidate, detail } => SettingsFault::EndpointUnparsable(
                candidate@,
                detail@,
            ),
            SettingsError::UnsupportedScheme { scheme } => SettingsFault::UnsupportedScheme(scheme@),
            SettingsError::MissingHost => SettingsFault::MissingHost,
        }
    }
}

/// Makes a configured MusicIndex endpoint canonical.
pub fn normalize_musicindex_endpoint(endpoint: &str) -> (r: Result<String, SettingsError>)
    ensures
        match (r, endpoint_outcome(endpoint@)) {
            (Ok(s), Ok(t)) => s@ == t,
            (Err(e), Err(f)) => e@ == f,
            _ => false,
        },
{
    let trimmed = trim(endpoint);
    let trimmed = trim_end_slashes(trimmed.as_str());
    if trimmed.as_str().is_empty() {
        return Err(SettingsError::EmptyEndpoint);
    }
    let candidate = if contains(trimmed.as_str(), "://") {
        trimmed
    } else {
        let mut c = "https://".to_owned();
        push_str(&mut c, trimmed.as_str());
        c
    };
    match parse_endpoint(candidate.as_str()) {
        Err(detail) => Err(SettingsError::EndpointUnparsable { candidate, detail }),
        Ok((scheme, has_host, text)) => {
            if !(string_eq_text(scheme.as_str(), "http") || string_eq_text(scheme.as_str(), "https")) {
                return Err(SettingsError::UnsupportedScheme { scheme });
            }
            if !has_host {
                return Err(SettingsError::MissingHost);
            }
            Ok(trim_end_slashes(text.as_str()))
        },
    }
}

/// The MusicIndex endpoint to use: the settings file's, made canonical, or
/// the default one.
pub fn musicindex_endpoint(configured: &Option<String>) -> (r: Result<String, SettingsError>)
    ensures
        match configured {
            Some(e) => match (r, endpoint_outcome(e@)) {
                (Ok(s), Ok(t)) => s@ == t,
                (Err(x), Err(f)) => x@ == f,
                _ => false,
            },
            None => r matches Ok(s) && s@ == DEFAULT_BASE_URL@,
        },
{
    match configured {
        Some(e) => normalize_musicindex_endpoint(e.as_str()),
        None => Ok(DEFAULT_BASE_URL.to_owned()),
    }
}

impl SettingsError {
    /// The message that explains this error.
    pub fn message(&self) -> (m: String)
        ensures
            m@ == match self {
                SettingsError::EmptyPath => "path is empty"@,
                SettingsError::EmptyEndpoint => "musicindex_endpoint is empty"@,
                SettingsError::EndpointUnparsable { candidate, detail: _ } => "parse musicindex_endpoint "@
                    + crate::text::debug_text(candidate@),
                SettingsError::UnsupportedScheme { scheme } => "unsupported musicindex_endpoint scheme: "@
                    + scheme@,
                SettingsError::MissingHost => "musicindex_endpoint must include a host"@,
            },
    {
        let mut out = String::new();
        match self {
            SettingsError::EmptyPath => push_str(&mut out, "path is empty"),
            SettingsError::EmptyEndpoint => push_str(&mut out, "musicindex_endpoint is empty"),
            SettingsError::EndpointUnparsable { candidate, detail: _ } => {
                push_str(&mut out, "parse musicindex_endpoint ");
                push_str(&mut out, crate::text::debug_quoted(candidate.as_str()).as_str());
            },
            SettingsError::UnsupportedScheme { scheme } => {
                push_str(&mut out, "unsupported musicindex_endpoint scheme: ");
                push_str(&mut out, scheme.as_str());
            },
            SettingsError::MissingHost => push_str(&mut out, "musicindex_endpoint must include a host"),
        }
        out
    }
}

} // verus!
