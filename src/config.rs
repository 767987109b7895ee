//! Settings read once at startup.
use vstd::prelude::*;

verus! {

/// The settings of the server.
#[derive(Clone, Debug)]
pub struct Config {
    pub port: String,
    pub path: String,
    pub max_file_size: usize,
    pub pwd: String,
    pub uri: String,
}

/// The largest upload, in bytes, when the settings give none.
pub const DEFAULT_MAX_FILE_SIZE: usize = 10485760;

/// Bytes in a mebibyte: the unit of the configured maximum file size.
pub const MEBIBYTE: usize = 1048576;

impl Config {
    /// The settings used when there is no settings file.
    pub open spec fn is_default(&self) -> bool {
        &&& self.port@ == "5051"@
        &&& self.path@ == "./"@
        &&& self.max_file_size == DEFAULT_MAX_FILE_SIZE
        &&& self.pwd@ == "123456"@
        &&& self.uri@ == "/file_uploader"@
    }
}

impl Default for Config {
    fn default() -> (r: Config)
        ensures
            r.is_default(),
    {
        Config {
            port: String::from_str("5051"),
            path: String::from_str("./"),
            uri: String::from_str("/file_uploader"),
            max_file_size: DEFAULT_MAX_FILE_SIZE,
            pwd: String::from_str("123456"),
        }
    }
}

/// What the server hands each request: the rendered index page and the settings.
#[derive(Clone)]
pub struct AppState {
    pub index: String,
    pub conf: Config,
}

/// The entries of one section of the settings file, as found there.
pub struct ConfEntries {
    pub port: Option<String>,
    pub path: Option<String>,
    pub max_file_size: Option<String>,
    pub pwd: Option<String>,
    pub uri: Option<String>,
}

pub open spec fn is_digit(c: char) -> bool {
    '0' <= c && c <= '9'
}

/// The number that a string of decimal digits writes.
pub open spec fn digits_value(s: Seq<char>) -> nat
    decreases s.len(),
{
    if s.len() == 0 {
        0
    } else {
        digits_value(s.drop_last()) * 10 + (s.last() as nat - '0' as nat) as nat
    }
}

/// The digits of an unsigned decimal: the text after an optional leading `+`.
pub open spec fn unsigned_digits(s: Seq<char>) -> Seq<char> {
    if s.len() > 0 && s[0] == '+' {
        s.drop_first()
    } else {
        s
    }
}

/// The `usize` that a text writes in decimal, if it writes one: an optional
/// `+`, then at least one digit and nothing else, of a value that fits.
pub open spec fn parsed_usize(s: Seq<char>) -> Option<usize> {
    let d = unsigned_digits(s);
    if d.len() > 0 && (forall|i: int| 0 <= i < d.len() ==> is_digit(#[trigger] d[i]))
        && digits_value(d) <= usize::MAX {
        Some(digits_value(d) as usize)
    } else {
        None
    }
}

/// Relies on std's `str::parse::<usize>`: it accepts exactly an optional `+`
/// followed by one or more ASCII digits whose value fits in a `usize`.
#[verifier::external_body]
fn parse_usize(s: &str) -> (r: Option<usize>)
    ensures
        r == parsed_usize(s@),
{
    s.parse::<usize>().ok()
}

/// The maximum file size in bytes for a setting given in mebibytes; the
/// default when the setting is not a number or the size does not fit.
pub open spec fn max_file_size_of(setting: Seq<char>) -> usize {
    match parsed_usize(setting) {
        Some(n) => if n * MEBIBYTE <= usize::MAX {
            (n * MEBIBYTE) as usize
        } else {
            DEFAULT_MAX_FILE_SIZE
        },
        None => DEFAULT_MAX_FILE_SIZE,
    }
}

pub fn max_file_size_from(setting: &String) -> (r: usize)
    ensures
        r == max_file_size_of(setting@),
{
    match parse_usize(setting.as_str()) {
        Some(n) => if n <= usize::MAX / MEBIBYTE {
            proof {
                assert(n * MEBIBYTE <= usize::MAX) by (nonlinear_arith)
                    requires n <= usize::MAX / MEBIBYTE, MEBIBYTE == 1048576;
            }
            n * MEBIBYTE
        } else {
            proof {
                assert(n * MEBIBYTE > usize::MAX) by (nonlinear_arith)
                    requires n > usize::MAX / MEBIBYTE, MEBIBYTE == 1048576;
            }
            DEFAULT_MAX_FILE_SIZE
        },
        None => DEFAULT_MAX_FILE_SIZE,
    }
}

/// Builds the settings. Without a settings file every value is the
/// default; with one, each entry found replaces its default, and the
/// upload directory falls back to the working directory.
pub fn read_conf(entries: Option<ConfEntries>, current_dir: String) -> (r: Config)
    ensures
        match entries {
            None => r.is_default(),
            Some(e) => {
                &&& r.port@ == (match e.port {
                    Some(v) => v@,
                    None => "5051"@,
                })
                &&& r.path@ == (match e.path {
                    Some(v) => v@,
                    None => current_dir@,
                })
                &&& r.max_file_size == (match e.max_file_size {
                    Some(v) => max_file_size_of(v@),
                    None => DEFAULT_MAX_FILE_SIZE,
                })
                &&& r.pwd@ == (match e.pwd {
                    Some(v) => v@,
                    None => "123456"@,
                })
                &&& r.uri@ == (match e.uri {
                    Some(v) => v@,
                    None => "/file_uploader"@,
                })
            },
        },
{
    let mut conf = Config::default();
    if let Some(e) = entries {
        if let Some(port) = e.port {
            conf.port = port;
        }
        conf.path = match e.path {
            Some(path) => path,
            None => current_dir,
        };
        if let Some(size) = e.max_file_size {
            conf.max_file_size = max_file_size_from(&size);
        }
        if let Some(pwd) = e.pwd {
            conf.pwd = pwd;
        }
        if let Some(uri) = e.uri {
            conf.uri = uri;
        }
    }
    conf
}

} // verus!
