use vstd::prelude::*;
use vstd::string::*;

verus! {

/// Largest value a TCP port number can take.
pub const MAX_PORT: u32 = 65535;

/// Port the server listens on unless configured otherwise.
pub const DEFAULT_SERVER_PORT: u16 = 50051;

/// Backend-specific configuration. The in-memory backend needs no settings.
#[derive(Clone, Debug)]
pub struct BackendConfig {}

impl Default for BackendConfig {
    fn default() -> (r: Self)
        ensures
            r == (BackendConfig {}),
    {
        BackendConfig {}
    }
}

/// Configuration of the payment processor process.
#[derive(Clone, Debug)]
pub struct Config {
    /// Backend type identifier, such as "mock".
    pub backend_type: String,
    /// Backend-specific configuration.
    pub backend: BackendConfig,
    /// Port of the RPC server.
    pub server_port: u16,
    /// Whether the RPC server uses TLS.
    pub tls_enable: bool,
    pub tls_cert_path: String,
    pub tls_key_path: String,
    /// HTTP/2 keep-alive interval, such as "30s".
    pub keep_alive_interval: Option<String>,
    /// HTTP/2 keep-alive timeout, such as "10s".
    pub keep_alive_timeout: Option<String>,
    /// Maximum connection age, such as "30m".
    pub max_connection_age: Option<String>,
}

/// The environment variables that override file configuration, each as read
/// (`None` where the variable is unset).
#[derive(Clone, Debug)]
pub struct EnvVars {
    pub server_port: Option<String>,
    pub tls_enable: Option<String>,
    pub tls_cert_path: Option<String>,
    pub tls_key_path: Option<String>,
}

pub open spec fn is_digit(c: char) -> bool {
    '0' <= c && c <= '9'
}

pub open spec fn all_digits(s: Seq<char>) -> bool {
    forall|i: int| 0 <= i < s.len() ==> is_digit(#[trigger] s[i])
}

/// The number that a string of decimal digits denotes.
pub open spec fn digits_value(s: Seq<char>) -> int
    decreases s.len(),
{
    if s.len() == 0 {
        0
    } else {
        digits_value(s.drop_last()) * 10 + (s.last() as int - '0' as int)
    }
}

/// The digits of a port number: an optional leading `+` is not part of them.
pub open spec fn unsigned_digits(s: Seq<char>) -> Seq<char> {
    if s.len() > 0 && s[0] == '+' {
        s.subrange(1, s.len() as int)
    } else {
        s
    }
}

/// A port number as written in decimal: an optional `+`, then at least one
/// digit, denoting at most 65535.
pub open spec fn port_of(s: Seq<char>) -> Option<u16> {
    let d = unsigned_digits(s);
    if d.len() > 0 && all_digits(d) && digits_value(d) <= MAX_PORT {
        Some(digits_value(d) as u16)
    } else {
        None
    }
}

/// The values that switch TLS on.
pub open spec fn is_enabling(s: Seq<char>) -> bool {
    s == seq!['1'] || s == seq!['t', 'r', 'u', 'e'] || s == seq!['T', 'R', 'U', 'E']
        || s == seq!['y', 'e', 's'] || s == seq!['Y', 'E', 'S']
}

pub open spec fn string_or(v: Option<String>, dflt: Seq<char>) -> Seq<char> {
    match v {
        Some(s) => s@,
        None => dflt,
    }
}

proof fn lemma_digits_value_nonneg(s: Seq<char>)
    requires
        all_digits(s),
    ensures
        digits_value(s) >= 0,
    decreases s.len(),
{
    if s.len() > 0 {
        assert(all_digits(s.drop_last()));
        lemma_digits_value_nonneg(s.drop_last());
        assert(is_digit(s[s.len() - 1]));
    }
}

/// A longer run of digits denotes at least as much as its prefix.
proof fn lemma_digits_value_grows(s: Seq<char>, j: int)
    requires
        all_digits(s),
        0 <= j <= s.len(),
    ensures
        digits_value(s.subrange(0, j)) <= digits_value(s),
    decreases s.len() - j,
{
    if j < s.len() {
        let t = s.subrange(0, j + 1);
        assert(all_digits(t));
        assert(t.drop_last() =~= s.subrange(0, j));
        lemma_digits_value_nonneg(s.subrange(0, j));
        assert(is_digit(t[j]));
        lemma_digits_value_grows(s, j + 1);
    } else {
        assert(s.subrange(0, j) =~= s);
    }
}

/// Parses a port number as `u16::from_str` does.
pub fn parse_port(s: &str) -> (r: Option<u16>)
    ensures
        r == port_of(s@),
{
    let n = s.unicode_len();
    let mut i: usize = 0;
    if n > 0 && s.get_char(0) == '+' {
        i = 1;
    }
    let start = i;
    let ghost d = unsigned_digits(s@);
    assert(d =~= s@.subrange(start as int, n as int));
    if i == n {
        return None;
    }
    let mut acc: u32 = 0;
    while i < n
        invariant
            start <= i <= n,
            n == s@.len(),
            d == unsigned_digits(s@),
            d =~= s@.subrange(start as int, n as int),
            all_digits(d.subrange(0, i - start)),
            acc as int == digits_value(d.subrange(0, i - start)),
            acc <= MAX_PORT,
        decreases n - i,
    {
        let c = s.get_char(i);
        if c < '0' || c > '9' {
            assert(d[i - start] == c);
            assert(!is_digit(d[i - start]));
            return None;
        }
        let ghost prev = d.subrange(0, i - start);
        let ghost next = d.subrange(0, i + 1 - start);
        assert(next.drop_last() =~= prev);
        assert(next.last() == c);
        let digit = (c as u32) - ('0' as u32);
        assert(all_digits(next));
        if acc > 6553 || (acc == 6553 && digit > 5) {
            assert(digits_value(next) > MAX_PORT);
            proof {
                if all_digits(d) {
                    lemma_digits_value_grows(d, i + 1 - start);
                }
            }
            return None;
        }
        acc = acc * 10 + digit;
        i = i + 1;
    }
    assert(d.subrange(0, n - start) =~= d);
    Some(acc as u16)
}


/// Whether an environment value switches TLS on.
pub fn parse_tls_flag(v: &String) -> (r: bool)
    ensures
        r == is_enabling(v@),
{
    proof {
        reveal_strlit("1");
        reveal_strlit("true");
        reveal_strlit("TRUE");
        reveal_strlit("yes");
        reveal_strlit("YES");
    }
    let r = *v == "1".to_owned() || *v == "true".to_owned() || *v == "TRUE".to_owned()
        || *v == "yes".to_owned() || *v == "YES".to_owned();
    assert("1"@ =~= seq!['1']);
    assert("true"@ =~= seq!['t', 'r', 'u', 'e']);
    assert("TRUE"@ =~= seq!['T', 'R', 'U', 'E']);
    assert("yes"@ =~= seq!['y', 'e', 's']);
    assert("YES"@ =~= seq!['Y', 'E', 'S']);
    r
}

impl Default for Config {
    fn default() -> (r: Self)
        ensures
            r.backend_type@ == "mock"@,
            r.server_port == DEFAULT_SERVER_PORT,
            !r.tls_enable,
            r.tls_cert_path@ == "certs/server.crt"@,
            r.tls_key_path@ == "certs/server.key"@,
            r.keep_alive_interval.is_none(),
            r.keep_alive_timeout.is_none(),
            r.max_connection_age.is_none(),
    {
        Config {
            backend_type: "mock".to_owned(),
            backend: BackendConfig::default(),
            server_port: DEFAULT_SERVER_PORT,
            tls_enable: false,
            tls_cert_path: "certs/server.crt".to_owned(),
            tls_key_path: "certs/server.key".to_owned(),
            keep_alive_interval: None,
            keep_alive_timeout: None,
            max_connection_age: None,
        }
    }
}

impl Config {
    /// Overlays the environment on a base configuration (the defaults merged
    /// with the configuration file). A port that does not parse keeps the
    /// base port; TLS is on exactly when its variable holds an enabling
    /// value; the certificate and key paths are taken as given. Nothing else
    /// changes.
    pub fn from_env(base: Config, vars: &EnvVars) -> (r: Config)
        ensures
            r.server_port == (match vars.server_port {
                Some(v) => match port_of(v@) {
                    Some(p) => p,
                    None => base.server_port,
                },
                None => base.server_port,
            }),
            r.tls_enable == (match vars.tls_enable {
                Some(v) => is_enabling(v@),
                None => base.tls_enable,
            }),
            r.tls_cert_path@ == string_or(vars.tls_cert_path, base.tls_cert_path@),
            r.tls_key_path@ == string_or(vars.tls_key_path, base.tls_key_path@),
            r.backend_type == base.backend_type,
            r.backend == base.backend,
            r.keep_alive_interval == base.keep_alive_interval,
            r.keep_alive_timeout == base.keep_alive_timeout,
            r.max_connection_age == base.max_connection_age,
    {
        let mut cfg = base;
        match &vars.server_port {
            Some(v) => {
                match parse_port(v.as_str()) {
                    Some(p) => {
                        cfg.server_port = p;
                    },
                    None => {},
                }
            },
            None => {},
        }
        match &vars.tls_enable {
            Some(v) => {
                cfg.tls_enable = parse_tls_flag(v);
            },
            None => {},
        }
        match &vars.tls_cert_path {
            Some(v) => {
                cfg.tls_cert_path = v.clone();
            },
            None => {},
        }
        match &vars.tls_key_path {
            Some(v) => {
                cfg.tls_key_path = v.clone();
            },
            None => {},
        }
        cfg
    }
}

} // verus!
