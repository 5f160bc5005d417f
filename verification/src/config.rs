use vstd::prelude::*;
use vstd::string::*;

verus! {

/// A non-empty string of decimal digits.
pub open spec fn is_digits(s: Seq<char>) -> bool {
    s.len() > 0 && forall|i: int| 0 <= i < s.len() ==> '0' <= #[trigger] s[i] <= '9'
}

/// The numeric value of one digit.
pub open spec fn digit_val(c: char) -> int {
    c as int - '0' as int
}

/// The base-10 value of a digit string.
pub open spec fn digits_value(s: Seq<char>) -> int
    decreases s.len(),
{
    if s.len() == 0 {
        0
    } else {
        digits_value(s.drop_last()) * 10 + digit_val(s.last())
    }
}

proof fn lemma_digits_value_nonneg(s: Seq<char>)
    requires
        forall|i: int| 0 <= i < s.len() ==> '0' <= #[trigger] s[i] <= '9',
    ensures
        digits_value(s) >= 0,
    decreases s.len(),
{
    if s.len() > 0 {
        lemma_digits_value_nonneg(s.drop_last());
    }
}

proof fn lemma_digits_value_prefix_le(s: Seq<char>, i: int)
    requires
        forall|k: int| 0 <= k < s.len() ==> '0' <= #[trigger] s[k] <= '9',
        0 <= i <= s.len(),
    ensures
        digits_value(s.take(i)) <= digits_value(s),
    decreases s.len() - i,
{
    if i < s.len() {
        lemma_digits_value_prefix_le(s, i + 1);
        assert(s.take(i + 1).drop_last() =~= s.take(i));
        assert(s.take(i + 1).last() == s[i]);
        lemma_digits_value_nonneg(s.take(i));
    } else {
        assert(s.take(i) =~= s);
    }
}

/// Parse a non-empty, all-digit decimal string into a `u32`. `None` exactly
/// when the string is not such a digit string or its value does not fit.
pub fn parse_u32(s: &str) -> (r: Option<u32>)
    ensures
        match r {
            Option::Some(v) => is_digits(s@) && v as int == digits_value(s@),
            Option::None => !is_digits(s@) || digits_value(s@) > u32::MAX as int,
        },
{
    let n = s.unicode_len();
    if n == 0 {
        return Option::None;
    }
    let mut acc: u32 = 0;
    let mut i: usize = 0;
    while i < n
        invariant
            n == s@.len(),
            0 < n,
            i <= n,
            forall|k: int| 0 <= k < i ==> '0' <= #[trigger] s@[k] <= '9',
            acc as int == digits_value(s@.take(i as int)),
        decreases n - i,
    {
        let c = s.get_char(i);
        if c < '0' || c > '9' {
            return Option::None;
        }
        let d: u32 = (c as u32) - 48;
        proof {
            assert(s@.take(i + 1).drop_last() =~= s@.take(i as int));
            assert(s@.take(i + 1).last() == s@[i as int]);
        }
        if acc > (u32::MAX - d) / 10 {
            proof {
                assert(digits_value(s@.take(i + 1)) > u32::MAX as int);
                if is_digits(s@) {
                    lemma_digits_value_prefix_le(s@, i + 1);
                }
            }
            return Option::None;
        }
        acc = acc * 10 + d;
        i += 1;
    }
    proof {
        assert(s@.take(n as int) =~= s@);
    }
    Option::Some(acc)
}

/// Parse a non-empty, all-digit decimal string into a `u16`.
pub fn parse_u16(s: &str) -> (r: Option<u16>)
    ensures
        match r {
            Option::Some(v) => is_digits(s@) && v as int == digits_value(s@),
            Option::None => !is_digits(s@) || digits_value(s@) > u16::MAX as int,
        },
{
    match parse_u32(s) {
        Option::Some(v) => if v <= 65535 {
            Option::Some(v as u16)
        } else {
            Option::None
        },
        Option::None => Option::None,
    }
}

/// The raw environment readings the configuration is built from; `None`
/// where the variable is unset.
#[derive(Debug, Clone, PartialEq)]
pub struct ConfigEnv {
    pub server_host: Option<String>,
    pub server_port: Option<String>,
    pub log_level: Option<String>,
    pub log_file_path: Option<String>,
    pub db_url: Option<String>,
    pub db_max_connections: Option<String>,
    pub db_min_connections: Option<String>,
}

impl ConfigEnv {
    /// The host, defaulted.
    pub open spec fn host_src(&self) -> Seq<char> {
        match self.server_host {
            Option::Some(s) => s@,
            Option::None => "127.0.0.1"@,
        }
    }

    /// The port digits, defaulted.
    pub open spec fn port_src(&self) -> Seq<char> {
        match self.server_port {
            Option::Some(s) => s@,
            Option::None => "8080"@,
        }
    }

    /// The log level, defaulted.
    pub open spec fn log_level_src(&self) -> Seq<char> {
        match self.log_level {
            Option::Some(s) => s@,
            Option::None => "error"@,
        }
    }

    /// The log file path, defaulted.
    pub open spec fn log_path_src(&self) -> Seq<char> {
        match self.log_file_path {
            Option::Some(s) => s@,
            Option::None => "app.log"@,
        }
    }

    /// The connection-pool maximum digits, defaulted.
    pub open spec fn max_conn_src(&self) -> Seq<char> {
        match self.db_max_connections {
            Option::Some(s) => s@,
            Option::None => "4"@,
        }
    }

    /// The connection-pool minimum digits, defaulted.
    pub open spec fn min_conn_src(&self) -> Seq<char> {
        match self.db_min_connections {
            Option::Some(s) => s@,
            Option::None => "2"@,
        }
    }
}

/// Whether a digit string fits a `u16`.
pub open spec fn u16_ok(s: Seq<char>) -> bool {
    is_digits(s) && digits_value(s) <= u16::MAX as int
}

/// Whether a digit string fits a `u32`.
pub open spec fn u32_ok(s: Seq<char>) -> bool {
    is_digits(s) && digits_value(s) <= u32::MAX as int
}

/// Why the configuration could not be built. The database URL has no
/// default; the numeric variables must be decimal digits in range.
#[derive(Debug, Clone, PartialEq, Eq)]
pub enum ConfigError {
    InvalidServerPort,
    MissingDbUrl,
    InvalidDbMaxConnections,
    InvalidDbMinConnections,
}

/// The service configuration.
#[derive(Debug, Clone, PartialEq)]
pub struct Config {
    pub server_host: String,
    pub server_port: u16,
    pub log_level: String,
    pub log_file_path: String,
    pub db_url: String,
    pub db_max_connections: u32,
    pub db_min_connections: u32,
}

impl Config {
    /// Build the configuration from the raw environment readings, applying
    /// the documented defaults and validating the numeric variables. The
    /// first failure in reading order wins: port, database URL, pool
    /// maximum, pool minimum.
    pub fn new(env: ConfigEnv) -> (r: Result<Config, ConfigError>)
        ensures
            r is Ok <==> (env.db_url is Some && u16_ok(env.port_src()) && u32_ok(
                env.max_conn_src(),
            ) && u32_ok(env.min_conn_src())),
            r matches Result::Ok(c) ==> {
                &&& c.server_host@ == env.host_src()
                &&& c.server_port as int == digits_value(env.port_src())
                &&& c.log_level@ == env.log_level_src()
                &&& c.log_file_path@ == env.log_path_src()
                &&& (env.db_url matches Option::Some(u) && c.db_url@ == u@)
                &&& c.db_max_connections as int == digits_value(env.max_conn_src())
                &&& c.db_min_connections as int == digits_value(env.min_conn_src())
            },
            r matches Result::Err(e) ==> match e {
                ConfigError::InvalidServerPort => !u16_ok(env.port_src()),
                ConfigError::MissingDbUrl => u16_ok(env.port_src()) && env.db_url is None,
                ConfigError::InvalidDbMaxConnections => u16_ok(env.port_src())
                    && env.db_url is Some && !u32_ok(env.max_conn_src()),
                ConfigError::InvalidDbMinConnections => u16_ok(env.port_src())
                    && env.db_url is Some && u32_ok(env.max_conn_src()) && !u32_ok(
                    env.min_conn_src(),
                ),
            },
    {
        let server_host = match env.server_host {
            Option::Some(s) => s,
            Option::None => String::from_str("127.0.0.1"),
        };
        let port_str = match env.server_port {
            Option::Some(s) => s,
            Option::None => String::from_str("8080"),
        };
        let server_port = match parse_u16(port_str.as_str()) {
            Option::Some(v) => v,
            Option::None => {
                return Result::Err(ConfigError::InvalidServerPort);
            },
        };
        let log_level = match env.log_level {
            Option::Some(s) => s,
            Option::None => String::from_str("error"),
        };
        let log_file_path = match env.log_file_path {
            Option::Some(s) => s,
            Option::None => String::from_str("app.log"),
        };
        let db_url = match env.db_url {
            Option::Some(s) => s,
            Option::None => {
                return Result::Err(ConfigError::MissingDbUrl);
            },
        };
        let max_str = match env.db_max_connections {
            Option::Some(s) => s,
            Option::None => String::from_str("4"),
        };
        let db_max_connections = match parse_u32(max_str.as_str()) {
            Option::Some(v) => v,
            Option::None => {
                return Result::Err(ConfigError::InvalidDbMaxConnections);
            },
        };
        let min_str = match env.db_min_connections {
            Option::Some(s) => s,
            Option::None => String::from_str("2"),
        };
        let db_min_connections = match parse_u32(min_str.as_str()) {
            Option::Some(v) => v,
            Option::None => {
                return Result::Err(ConfigError::InvalidDbMinConnections);
            },
        };
        Result::Ok(
            Config {
                server_host,
                server_port,
                log_level,
                log_file_path,
                db_url,
                db_max_connections,
                db_min_connections,
            },
        )
    }
}

} // verus!
