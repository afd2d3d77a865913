use vstd::prelude::*;
use crate::config::{Assignment, Config, lookup, i32_value};
use crate::file_downloader::{DEFAULT_CHUNK_SIZE, DEFAULT_RETRIES};

verus! {

/// Server asked when the configuration names none.
pub const DEFAULT_HOST: &'static str = "127.0.0.1";

/// Resource path asked for when the configuration names none.
pub const DEFAULT_PATH: &'static str = "/";

/// Port used when the configuration names none.
pub const DEFAULT_PORT: u16 = 8080;

/// Read/write timeout and transport backoff, in seconds, when the configuration names none.
pub const DEFAULT_TIMEOUT_SECS: u64 = 5;

/// The pause after a short body, in milliseconds.
pub const SHORT_BACKOFF_MS: u64 = 200;

/// A text setting: the configured value when it is not empty and, for a path, starts with
/// `/`; else the default.
pub open spec fn text_setting(cfg: Seq<Assignment>, section: Seq<char>, key: Seq<char>, path_like: bool, default: Seq<char>) -> Seq<char> {
    match lookup(cfg, section, key) {
        Some(v) => if v.len() > 0 && (!path_like || v[0] == '/') { v } else { default },
        None => default,
    }
}

/// A number setting: the configured value when it is an integer in `lo..=hi`, else the default.
pub open spec fn int_setting(cfg: Seq<Assignment>, section: Seq<char>, key: Seq<char>, lo: int, hi: int, default: int) -> int {
    match lookup(cfg, section, key) {
        Some(v) => match i32_value(v) {
            Some(x) => if lo <= x <= hi { x } else { default },
            None => default,
        },
        None => default,
    }
}

/// What a download run is set up with.
pub struct Settings {
    pub host: String,
    pub path: String,
    pub port: u16,
    pub chunk_size: usize,
    pub retries: usize,
    pub timeout_secs: u64,
}

fn text_or(cfg: &Config, section: &str, key: &str, path_like: bool, default: &str) -> (r: String)
    ensures
        r@ == text_setting(cfg@, section@, key@, path_like, default@),
{
    match cfg.get_as_string(section, key) {
        Some(v) => {
            let n = v.as_str().unicode_len();
            if n > 0 && (!path_like || v.as_str().get_char(0) == '/') {
                v
            } else {
                String::from_str(default)
            }
        },
        None => String::from_str(default),
    }
}

fn int_or(cfg: &Config, section: &str, key: &str, lo: i32, hi: i32, default: i32) -> (r: i32)
    ensures
        r == int_setting(cfg@, section@, key@, lo as int, hi as int, default as int),
{
    match cfg.get_as_int(section, key) {
        Some(x) => if lo <= x && x <= hi { x } else { default },
        None => default,
    }
}

impl Settings {
    /// The settings named in `cfg` (`[request]` host, path, port; `[downloader]` chunk_size,
    /// retries, timeout), each falling back to its default when it is missing or unusable.
    pub fn from_config(cfg: &Config) -> (r: Settings)
        ensures
            r.host@ == text_setting(cfg@, "request"@, "host"@, false, DEFAULT_HOST@),
            r.path@ == text_setting(cfg@, "request"@, "path"@, true, DEFAULT_PATH@),
            r.port == int_setting(cfg@, "request"@, "port"@, 1, 65535, DEFAULT_PORT as int),
            r.chunk_size == int_setting(cfg@, "downloader"@, "chunk_size"@, 1, 0x7fff_ffff, DEFAULT_CHUNK_SIZE as int),
            r.retries == int_setting(cfg@, "downloader"@, "retries"@, 1, 0x7fff_ffff, DEFAULT_RETRIES as int),
            r.timeout_secs == int_setting(cfg@, "downloader"@, "timeout"@, 1, 0x7fff_ffff, DEFAULT_TIMEOUT_SECS as int),
            r.host@.len() > 0,
            r.path@.len() > 0 && r.path@[0] == '/',
            r.retries >= 1,
    {
        proof {
            reveal_strlit("127.0.0.1");
            reveal_strlit("/");
        }
        let host = text_or(cfg, "request", "host", false, DEFAULT_HOST);
        let path = text_or(cfg, "request", "path", true, DEFAULT_PATH);
        let port = int_or(cfg, "request", "port", 1, 65535, DEFAULT_PORT as i32);
        let chunk = int_or(cfg, "downloader", "chunk_size", 1, 0x7fff_ffff, DEFAULT_CHUNK_SIZE as i32);
        let retries = int_or(cfg, "downloader", "retries", 1, 0x7fff_ffff, DEFAULT_RETRIES as i32);
        let timeout = int_or(cfg, "downloader", "timeout", 1, 0x7fff_ffff, DEFAULT_TIMEOUT_SECS as i32);
        Settings {
            host,
            path,
            port: port as u16,
            chunk_size: chunk as usize,
            retries: retries as usize,
            timeout_secs: timeout as u64,
        }
    }
}

} // verus!
