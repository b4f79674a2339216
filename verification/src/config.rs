//! Runtime configuration: a typed contract over key/value pairs, loaded
//! once at startup and validated fail-fast.
//!
//! Keys match the upper-case names `ENV`, `SERVICE_PORT` and
//! `OTEL_EXPORTER_OTLP_ENDPOINT`, compared without regard to ASCII case;
//! the last pair wins. Missing keys fall back to defaults: `dev`, `8080`,
//! no exporter endpoint.

use vstd::prelude::*;
use vstd::string::{StrSliceExecFns, StringExecFns};
use crate::text::{
    all_space,
    digit_val,
    is_ascii_digit,
    is_blank,
    lower_ascii_seq,
    eq_ignore_ascii,
};

verus! {

pub const DEFAULT_SERVICE_PORT: u16 = 8080;

#[derive(Clone, Copy, PartialEq, Eq, Structural, Debug)]
pub enum Environment {
    Dev,
    Test,
    Prod,
}

impl Default for Environment {
    fn default() -> (r: Environment)
        ensures
            r == Environment::Dev,
    {
        Environment::Dev
    }
}

/// The environment a configuration value denotes, lower-case names only.
pub open spec fn env_of(s: Seq<char>) -> Option<Environment> {
    if s == "dev"@ {
        Some(Environment::Dev)
    } else if s == "test"@ {
        Some(Environment::Test)
    } else if s == "prod"@ {
        Some(Environment::Prod)
    } else {
        None
    }
}

#[derive(Debug)]
pub struct AppConfig {
    /// Runtime environment (dev/test/prod).
    pub env: Environment,
    /// HTTP port the service listens on.
    pub service_port: u16,
    /// OTLP endpoint for traces/metrics export, when one is configured.
    pub otel_exporter_otlp_endpoint: Option<String>,
}

#[verifier::ext_equal]
pub struct AppConfigV {
    pub env: Environment,
    pub service_port: u16,
    pub otel_exporter_otlp_endpoint: Option<Seq<char>>,
}

impl View for AppConfig {
    type V = AppConfigV;

    open spec fn view(&self) -> AppConfigV {
        AppConfigV {
            env: self.env,
            service_port: self.service_port,
            otel_exporter_otlp_endpoint: match self.otel_exporter_otlp_endpoint {
                Some(ref e) => Some(e@),
                None => None,
            },
        }
    }
}

#[derive(Debug)]
pub enum ConfigError {
    /// A value could not be parsed into its typed field.
    Parse(String),
    /// A parsed configuration that breaks a documented constraint.
    Validation(String),
}

#[verifier::ext_equal]
pub enum ConfigErrorV {
    Parse(Seq<char>),
    Validation(Seq<char>),
}

impl View for ConfigError {
    type V = ConfigErrorV;

    open spec fn view(&self) -> ConfigErrorV {
        match self {
            ConfigError::Parse(m) => ConfigErrorV::Parse(m@),
            ConfigError::Validation(m) => ConfigErrorV::Validation(m@),
        }
    }
}

impl ConfigError {
    /// The full human-readable message, with the error class spelled out.
    pub fn message(&self) -> (r: String)
        ensures
            self@ matches ConfigErrorV::Parse(m) ==> r@
                == "failed to parse configuration from environment: "@ + m,
            self@ matches ConfigErrorV::Validation(m) ==> r@ == "invalid configuration: "@ + m,
    {
        match self {
            ConfigError::Parse(m) => {
                let mut s = String::new();
                s.append("failed to parse configuration from environment: ");
                s.append(m.as_str());
                s
            },
            ConfigError::Validation(m) => {
                let mut s = String::new();
                s.append("invalid configuration: ");
                s.append(m.as_str());
                s
            },
        }
    }
}

/// The value of the last pair whose key equals `name` up to ASCII case.
pub open spec fn lookup(pairs: Seq<(String, String)>, name: Seq<char>) -> Option<Seq<char>>
    decreases pairs.len(),
{
    if pairs.len() == 0 {
        None
    } else if lower_ascii_seq(pairs.last().0@) == lower_ascii_seq(name) {
        Some(pairs.last().1@)
    } else {
        lookup(pairs.drop_last(), name)
    }
}

/// Looks a key up among the pairs, last match first, ASCII-case-blind.
pub fn lookup_kv<'a>(pairs: &'a Vec<(String, String)>, name: &str) -> (r: Option<&'a String>)
    ensures
        r matches Some(v) ==> lookup(pairs@, name@) == Some(v@),
        r is None ==> lookup(pairs@, name@) is None,
{
    let mut i: usize = pairs.len();
    proof {
        assert(pairs@.take(i as int) =~= pairs@);
    }
    while i > 0
        invariant
            0 <= i <= pairs.len(),
            lookup(pairs@, name@) == lookup(pairs@.take(i as int), name@),
        decreases i,
    {
        i = i - 1;
        proof {
            assert(pairs@.take(i as int + 1).last() == pairs@[i as int]);
            assert(pairs@.take(i as int + 1).drop_last() =~= pairs@.take(i as int));
        }
        if eq_ignore_ascii(pairs[i].0.as_str(), name) {
            return Some(&pairs[i].1);
        }
    }
    proof {
        assert(pairs@.take(0) =~= Seq::<(String, String)>::empty());
    }
    None
}

/// The numeric value of a digit string, most significant first.
pub open spec fn digits_val(s: Seq<char>) -> int
    decreases s.len(),
{
    if s.len() == 0 {
        0int
    } else {
        digits_val(s.drop_last()) * 10 + digit_val(s.last())
    }
}

pub open spec fn all_digits(s: Seq<char>) -> bool {
    forall|i: int| 0 <= i < s.len() ==> is_ascii_digit(#[trigger] s[i])
}

/// What `str::parse::<u16>` accepts: an optional `+`, then at least one
/// digit, denoting a value of at most 65535.
pub open spec fn parse_u16_spec(s: Seq<char>) -> Option<u16> {
    let t = if s.len() > 0 && s[0] == '+' {
        s.drop_first()
    } else {
        s
    };
    if t.len() > 0 && all_digits(t) && digits_val(t) <= 65535 {
        Some(digits_val(t) as u16)
    } else {
        None
    }
}

proof fn lemma_digits_val_grows(s: Seq<char>, k: int)
    requires
        0 <= k <= s.len(),
        all_digits(s),
    ensures
        digits_val(s.take(k)) <= digits_val(s),
        digits_val(s.take(k)) >= 0,
    decreases s.len() - k,
{
    if k == s.len() {
        assert(s.take(k) =~= s);
        lemma_digits_val_nonneg(s);
    } else {
        assert(s.take(k + 1).drop_last() =~= s.take(k));
        assert(s.take(k + 1).last() == s[k]);
        assert(is_ascii_digit(s[k]));
        lemma_digits_val_nonneg(s.take(k));
        lemma_digits_val_grows(s, k + 1);
    }
}

proof fn lemma_digits_val_nonneg(s: Seq<char>)
    requires
        forall|i: int| 0 <= i < s.len() ==> is_ascii_digit(#[trigger] s[i]),
    ensures
        digits_val(s) >= 0,
    decreases s.len(),
{
    if s.len() > 0 {
        assert(forall|i: int|
            0 <= i < s.drop_last().len() ==> is_ascii_digit(#[trigger] s.drop_last()[i]));
        lemma_digits_val_nonneg(s.drop_last());
        assert(is_ascii_digit(s.last()));
    }
}

/// Parses a decimal port number as `str::parse::<u16>` would.
pub fn parse_u16(s: &str) -> (r: Option<u16>)
    ensures
        r == parse_u16_spec(s@),
{
    let n = s.unicode_len();
    let mut start: usize = 0;
    if n > 0 && s.get_char(0) == '+' {
        start = 1;
    }
    let ghost t = if s@.len() > 0 && s@[0] == '+' {
        s@.drop_first()
    } else {
        s@
    };
    if start >= n {
        return None;
    }
    let mut acc: u32 = 0;
    let mut i: usize = start;
    while i < n
        invariant
            start <= i <= n,
            n == s@.len(),
            start == 0 || start == 1,
            start == 1 ==> s@.len() > 0 && s@[0] == '+',
            start == 0 ==> !(s@.len() > 0 && s@[0] == '+'),
            t == (if s@.len() > 0 && s@[0] == '+' {
                s@.drop_first()
            } else {
                s@
            }),
            t.len() == n - start,
            forall|j: int| 0 <= j < t.len() ==> t[j] == s@[j + start],
            forall|j: int| 0 <= j < i - start ==> is_ascii_digit(#[trigger] t[j]),
            acc == digits_val(t.take(i - start)),
            acc <= 65535,
        decreases n - i,
    {
        let c = s.get_char(i);
        let u = c as u32;
        if u < 0x30 || u > 0x39 {
            proof {
                assert(t[i - start] == s@[i as int]);
                assert(!is_ascii_digit(t[i - start]));
            }
            return None;
        }
        proof {
            assert(t[i - start] == s@[i as int]);
            assert(is_ascii_digit(t[i - start]));
            assert(t.take(i - start + 1).drop_last() =~= t.take(i - start));
            assert(t.take(i - start + 1).last() == t[i - start]);
        }
        acc = acc * 10 + (u - 0x30);
        if acc > 65535 {
            proof {
                assert(digits_val(t.take(i - start + 1)) > 65535);
                if all_digits(t) && digits_val(t) <= 65535 {
                    lemma_digits_val_grows(t, i - start + 1);
                }
            }
            return None;
        }
        i = i + 1;
    }
    proof {
        assert(t.take(n - start) =~= t);
    }
    Some(acc as u16)
}

/// What loading a key/value set yields: the typed configuration, or the
/// first error, fields in declaration order, then validation.
pub open spec fn from_kv_spec(pairs: Seq<(String, String)>) -> Result<AppConfigV, ConfigErrorV> {
    let e = lookup(pairs, "ENV"@);
    let p = lookup(pairs, "SERVICE_PORT"@);
    let o = lookup(pairs, "OTEL_EXPORTER_OTLP_ENDPOINT"@);
    if e is Some && env_of(e->Some_0) is None {
        Err(ConfigErrorV::Parse("env must be one of dev, test, prod (env: ENV)"@))
    } else if p is Some && parse_u16_spec(p->Some_0) is None {
        Err(
            ConfigErrorV::Parse(
                "service_port must be an integer in 0..=65535 (env: SERVICE_PORT)"@,
            ),
        )
    } else {
        let env = if e is Some {
            env_of(e->Some_0)->Some_0
        } else {
            Environment::Dev
        };
        let port = if p is Some {
            parse_u16_spec(p->Some_0)->Some_0
        } else {
            DEFAULT_SERVICE_PORT
        };
        if port == 0 {
            Err(
                ConfigErrorV::Validation("service_port must be in 1..=65535 (env: SERVICE_PORT)"@),
            )
        } else if o is Some && all_space(o->Some_0) {
            Err(
                ConfigErrorV::Validation(
                    "otel_exporter_otlp_endpoint must not be empty when set (env: OTEL_EXPORTER_OTLP_ENDPOINT)"@,
                ),
            )
        } else {
            Ok(AppConfigV { env, service_port: port, otel_exporter_otlp_endpoint: o })
        }
    }
}

impl AppConfig {
    /// Checks the documented constraints on an already-typed configuration:
    /// a listening port, and no blank exporter endpoint.
    pub fn validate(&self) -> (r: Result<(), ConfigError>)
        ensures
            r is Ok <==> self.service_port != 0 && !(self@.otel_exporter_otlp_endpoint
                matches Some(e) && all_space(e)),
            self.service_port == 0 ==> (r matches Err(err) && err@ == ConfigErrorV::Validation(
                "service_port must be in 1..=65535 (env: SERVICE_PORT)"@,
            )),
            self.service_port != 0 && (self@.otel_exporter_otlp_endpoint matches Some(e)
                && all_space(e)) ==> (r matches Err(err) && err@ == ConfigErrorV::Validation(
                "otel_exporter_otlp_endpoint must not be empty when set (env: OTEL_EXPORTER_OTLP_ENDPOINT)"@,
            )),
    {
        if self.service_port == 0 {
            return Err(
                ConfigError::Validation(
                    "service_port must be in 1..=65535 (env: SERVICE_PORT)".to_owned(),
                ),
            );
        }
        match &self.otel_exporter_otlp_endpoint {
            Some(ep) => {
                if is_blank(ep.as_str()) {
                    return Err(
                        ConfigError::Validation(
                            "otel_exporter_otlp_endpoint must not be empty when set (env: OTEL_EXPORTER_OTLP_ENDPOINT)".to_owned(),
                        ),
                    );
                }
            },
            None => {},
        }
        Ok(())
    }

    /// Loads the configuration from key/value pairs, failing fast on the
    /// first bad field or broken constraint.
    pub fn from_kv(pairs: &Vec<(String, String)>) -> (r: Result<AppConfig, ConfigError>)
        ensures
            r matches Ok(c) ==> from_kv_spec(pairs@) == Result::<AppConfigV, ConfigErrorV>::Ok(c@),
            r matches Err(e) ==> from_kv_spec(pairs@) == Result::<AppConfigV, ConfigErrorV>::Err(
                e@,
            ),
    {
        let env = match lookup_kv(pairs, "ENV") {
            Some(v) => {
                if crate::text::str_eq(v.as_str(), "dev") {
                    Environment::Dev
                } else if crate::text::str_eq(v.as_str(), "test") {
                    Environment::Test
                } else if crate::text::str_eq(v.as_str(), "prod") {
                    Environment::Prod
                } else {
                    return Err(
                        ConfigError::Parse(
                            "env must be one of dev, test, prod (env: ENV)".to_owned(),
                        ),
                    );
                }
            },
            None => Environment::Dev,
        };
        let service_port = match lookup_kv(pairs, "SERVICE_PORT") {
            Some(v) => match parse_u16(v.as_str()) {
                Some(p) => p,
                None => {
                    return Err(
                        ConfigError::Parse(
                            "service_port must be an integer in 0..=65535 (env: SERVICE_PORT)".to_owned(),
                        ),
                    );
                },
            },
            None => DEFAULT_SERVICE_PORT,
        };
        let otel_exporter_otlp_endpoint = match lookup_kv(pairs, "OTEL_EXPORTER_OTLP_ENDPOINT") {
            Some(v) => Some(v.clone()),
            None => None,
        };
        let cfg = AppConfig { env, service_port, otel_exporter_otlp_endpoint };
        match cfg.validate() {
            Ok(()) => Ok(cfg),
            Err(e) => Err(e),
        }
    }

    /// The default configuration: what an empty environment loads.
    pub fn dev() -> (r: AppConfig)
        ensures
            r.env == Environment::Dev,
            r.service_port == DEFAULT_SERVICE_PORT,
            r@.otel_exporter_otlp_endpoint is None,
    {
        let pairs: Vec<(String, String)> = Vec::new();
        proof {
            assert(pairs@.take(0) =~= Seq::<(String, String)>::empty());
        }
        match Self::from_kv(&pairs) {
            Ok(c) => c,
            Err(_) => vstd::pervasive::unreached(),
        }
    }
}

} // verus!
