//! Settings of the coordination service, and how they are read from the
//! environment's raw values.

use vstd::prelude::*;
use vstd::string::StringExecFns;
use crate::error::{lit, cat};

verus! {

/// Settings, all durations in milliseconds.
#[derive(Debug, Clone)]
pub struct Config {
    pub db_path: String,
    pub host: String,
    pub port: u16,
    /// Session TTL stored as milliseconds.
    pub session_ttl_ms: i64,
    /// Default advisory lock TTL in milliseconds.
    pub lock_default_ttl_ms: i64,
    /// Long-operation advisory lock TTL in milliseconds.
    pub lock_long_op_ttl_ms: i64,
    /// Maximum advisory lock TTL in milliseconds.
    pub lock_max_ttl_ms: i64,
    /// Inbox message retention in milliseconds.
    pub inbox_retention_ms: i64,
    pub log_level: String,
}

/// The raw values of the environment variables the settings come from
/// (`None` where a variable is unset).
#[derive(Debug)]
pub struct EnvSettings {
    pub db_path: Option<String>,
    pub home: Option<String>,
    pub host: Option<String>,
    pub port: Option<String>,
    pub session_ttl_sec: Option<String>,
    pub lock_ttl_sec: Option<String>,
    pub lock_long_op_ttl_sec: Option<String>,
    pub lock_max_ttl_sec: Option<String>,
    pub inbox_retention_sec: Option<String>,
    pub log_level: Option<String>,
}

/// Whether every character is an ASCII digit.
pub open spec fn all_digits(s: Seq<char>) -> bool {
    forall|i: int| 0 <= i < s.len() ==> '0' <= #[trigger] s[i] && s[i] <= '9'
}

/// The value of a string of decimal digits.
pub open spec fn digits_value(s: Seq<char>) -> int
    decreases s.len(),
{
    if s.len() == 0 {
        0
    } else {
        10 * digits_value(s.drop_last()) + ((s.last() as u32) - 48)
    }
}

/// The integer a decimal text denotes, as `FromStr` for integers reads it:
/// an optional `+` or `-` sign followed by one or more ASCII digits.
pub open spec fn decimal_value(s: Seq<char>) -> Option<int> {
    if s.len() > 0 && (s[0] == '+' || s[0] == '-') {
        let rest = s.drop_first();
        if rest.len() > 0 && all_digits(rest) {
            Some(if s[0] == '-' { -digits_value(rest) } else { digits_value(rest) })
        } else {
            None
        }
    } else if s.len() > 0 && all_digits(s) {
        Some(digits_value(s))
    } else {
        None
    }
}

/// The `i64` a text parses as, if it denotes one in range.
pub open spec fn spec_parse_i64(s: Seq<char>) -> Option<i64> {
    match decimal_value(s) {
        Some(v) => if i64::MIN <= v <= i64::MAX { Some(v as i64) } else { None },
        None => None,
    }
}

/// The `u16` a text parses as, if it denotes one in range; a `-` sign is
/// refused.
pub open spec fn spec_parse_u16(s: Seq<char>) -> Option<u16> {
    if s.len() > 0 && s[0] == '-' {
        None
    } else {
        match decimal_value(s) {
            Some(v) => if 0 <= v <= u16::MAX { Some(v as u16) } else { None },
            None => None,
        }
    }
}

/// `str::parse::<i64>`: accepts an optional `+` or `-` followed by ASCII
/// digits whose value fits in an `i64`; anything else is an error.
#[verifier::external_body]
fn parse_i64(s: &str) -> (r: Option<i64>)
    ensures
        r == spec_parse_i64(s@),
{
    s.parse::<i64>().ok()
}

/// `str::parse::<u16>`: accepts an optional `+` followed by ASCII digits
/// whose value fits in a `u16`; anything else is an error.
#[verifier::external_body]
fn parse_u16(s: &str) -> (r: Option<u16>)
    ensures
        r == spec_parse_u16(s@),
{
    s.parse::<u16>().ok()
}

/// Whether a raw seconds setting converts to milliseconds without
/// overflow: it is unset, does not denote an `i64`, or denotes one whose
/// thousandfold fits in an `i64`.
pub open spec fn ms_setting_fits(raw: Option<Seq<char>>) -> bool {
    match raw {
        Some(s) => match spec_parse_i64(s) {
            Some(v) => i64::MIN <= v * 1000 <= i64::MAX,
            None => true,
        },
        None => true,
    }
}

/// A setting in seconds, converted to milliseconds: the parsed value when
/// the variable is set and denotes an `i64`, else the default.
pub open spec fn spec_ms_setting(raw: Option<Seq<char>>, default_sec: i64) -> i64 {
    match raw {
        Some(s) => match spec_parse_i64(s) {
            Some(v) => (v * 1000) as i64,
            None => (default_sec * 1000) as i64,
        },
        None => (default_sec * 1000) as i64,
    }
}

pub open spec fn opt_view_of(o: Option<String>) -> Option<Seq<char>> {
    match o {
        Some(s) => Some(s@),
        None => None,
    }
}

/// Parse a raw setting as an `i64`; `None` when it is not one.
pub fn parse_i64_setting(raw: &str) -> (r: Option<i64>)
    ensures
        r == spec_parse_i64(raw@),
{
    parse_i64(raw)
}

/// Parse a raw setting as a `u16`; `None` when it is not one.
pub fn parse_u16_setting(raw: &str) -> (r: Option<u16>)
    ensures
        r == spec_parse_u16(raw@),
{
    parse_u16(raw)
}

/// Whether a raw seconds setting converts to milliseconds without overflow.
pub fn seconds_setting_fits(raw: &Option<String>) -> (r: bool)
    ensures
        r == ms_setting_fits(opt_view_of(*raw)),
{
    match raw {
        Some(s) => match parse_i64(s.as_str()) {
            Some(v) => v.checked_mul(1000).is_some(),
            None => true,
        },
        None => true,
    }
}

/// A setting in seconds as milliseconds, falling back to the default when
/// the raw value is missing or unparseable.
pub fn ms_setting(raw: &Option<String>, default_sec: i64) -> (r: i64)
    requires
        i64::MIN <= default_sec * 1000 <= i64::MAX,
        ms_setting_fits(opt_view_of(*raw)),
    ensures
        r == spec_ms_setting(opt_view_of(*raw), default_sec),
{
    match raw {
        Some(s) => match parse_i64(s.as_str()) {
            Some(v) => v * 1000,
            None => default_sec * 1000,
        },
        None => default_sec * 1000,
    }
}

/// The port setting: the parsed value when set and valid, else the default.
pub open spec fn spec_port_setting(raw: Option<Seq<char>>, default: u16) -> u16 {
    match raw {
        Some(s) => match spec_parse_u16(s) {
            Some(v) => v,
            None => default,
        },
        None => default,
    }
}

/// The default database path: `.sangha/state.db` under the home directory,
/// or relative to the working directory when there is no home.
pub open spec fn spec_default_db_path(home: Option<Seq<char>>) -> Seq<char> {
    match home {
        Some(h) => if h.len() == 0 {
            ".sangha/state.db"@
        } else if h.last() == '/' {
            h + ".sangha/state.db"@
        } else {
            h + "/.sangha/state.db"@
        },
        None => ".sangha/state.db"@,
    }
}

/// The default database path for a home directory.
pub fn default_db_path(home: Option<&str>) -> (r: String)
    ensures
        r@ == spec_default_db_path(match home {
            Some(h) => Some(h@),
            None => None,
        }),
{
    match home {
        Some(h) => {
            if h.is_empty() {
                lit(".sangha/state.db")
            } else {
                let hs = lit(h);
                let n = h.unicode_len();
                if h.get_char(n - 1) == '/' {
                    cat(hs, ".sangha/state.db")
                } else {
                    cat(hs, "/.sangha/state.db")
                }
            }
        },
        None => lit(".sangha/state.db"),
    }
}

fn or_default(raw: Option<String>, default: &str) -> (r: String)
    ensures
        r@ == match raw {
            Some(s) => s@,
            None => default@,
        },
{
    match raw {
        Some(s) => s,
        None => lit(default),
    }
}

impl Config {
    /// The settings the environment's raw values select, with the documented
    /// defaults for what is missing or invalid: 127.0.0.1:3200, sessions of
    /// 1800 s, locks of 600 s (1800 s for long operations, at most 86400 s),
    /// inbox retention of 86400 s, log level `info`.
    pub fn from_settings(env: EnvSettings) -> (c: Config)
        requires
            ms_setting_fits(opt_view_of(env.session_ttl_sec)),
            ms_setting_fits(opt_view_of(env.lock_ttl_sec)),
            ms_setting_fits(opt_view_of(env.lock_long_op_ttl_sec)),
            ms_setting_fits(opt_view_of(env.lock_max_ttl_sec)),
            ms_setting_fits(opt_view_of(env.inbox_retention_sec)),
        ensures
            c.db_path@ == match env.db_path {
                Some(p) => p@,
                None => spec_default_db_path(opt_view_of(env.home)),
            },
            c.host@ == match env.host {
                Some(h) => h@,
                None => "127.0.0.1"@,
            },
            c.port == spec_port_setting(opt_view_of(env.port), 3200),
            c.session_ttl_ms == spec_ms_setting(opt_view_of(env.session_ttl_sec), 1800),
            c.lock_default_ttl_ms == spec_ms_setting(opt_view_of(env.lock_ttl_sec), 600),
            c.lock_long_op_ttl_ms == spec_ms_setting(opt_view_of(env.lock_long_op_ttl_sec), 1800),
            c.lock_max_ttl_ms == spec_ms_setting(opt_view_of(env.lock_max_ttl_sec), 86400),
            c.inbox_retention_ms == spec_ms_setting(opt_view_of(env.inbox_retention_sec), 86400),
            c.log_level@ == match env.log_level {
                Some(l) => l@,
                None => "info"@,
            },
    {
        let db_path = match env.db_path {
            Some(p) => p,
            None => default_db_path(match &env.home {
                Some(h) => Some(h.as_str()),
                None => None,
            }),
        };
        let port = match &env.port {
            Some(p) => match parse_u16(p.as_str()) {
                Some(v) => v,
                None => 3200,
            },
            None => 3200,
        };
        Config {
            db_path,
            host: or_default(env.host, "127.0.0.1"),
            port,
            session_ttl_ms: ms_setting(&env.session_ttl_sec, 1800),
            lock_default_ttl_ms: ms_setting(&env.lock_ttl_sec, 600),
            lock_long_op_ttl_ms: ms_setting(&env.lock_long_op_ttl_sec, 1800),
            lock_max_ttl_ms: ms_setting(&env.lock_max_ttl_sec, 86400),
            inbox_retention_ms: ms_setting(&env.inbox_retention_sec, 86400),
            log_level: or_default(env.log_level, "info"),
        }
    }
}

} // verus!
