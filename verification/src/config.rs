//! Typed service configuration read from environment variables.
use vstd::prelude::*;
use crate::text::{parse_unsigned, parse_unsigned_str, IntErrorKind};

verus! {

/// Why the configuration could not be built.
#[derive(Debug, Clone, PartialEq, Eq)]
pub enum ConfigError {
    /// A required variable is not set.
    Missing(String),
    /// A variable is set to a value that cannot be used; the second field says why.
    Invalid(String, String),
}

impl ConfigError {
    /// The message of this error: `missing NAME` or `invalid NAME: REASON`.
    pub fn to_string(&self) -> (s: String)
        ensures
            s@ == self.message_spec(),
    {
        match self {
            ConfigError::Missing(name) => {
                let mut s = String::from_str("missing ");
                s.append(name.as_str());
                s
            },
            ConfigError::Invalid(name, reason) => {
                let mut s = String::from_str("invalid ");
                s.append(name.as_str());
                s.append(": ");
                s.append(reason.as_str());
                s
            },
        }
    }

    pub open spec fn message_spec(&self) -> Seq<char> {
        match self {
            ConfigError::Missing(name) => "missing "@ + name@,
            ConfigError::Invalid(name, reason) => "invalid "@ + name@ + ": "@ + reason@,
        }
    }
}

/// Service configuration.
#[derive(Debug, Clone)]
pub struct Config {
    pub listen_addr: String,
    pub rest_addr: Option<String>,
    pub auth_token: String,
    pub storage_path: String,
    pub max_file_size: u64,
    pub chunk_size: usize,
}

/// The value bound to `key` in `vars`: the first pair whose name is `key`.
pub open spec fn lookup_var(vars: Seq<(String, String)>, key: Seq<char>) -> Option<Seq<char>>
    decreases vars.len(),
{
    if vars.len() == 0 {
        None
    } else if vars[0].0@ == key {
        Some(vars[0].1@)
    } else {
        lookup_var(vars.drop_first(), key)
    }
}

/// The message that describes why a number could not be read.
pub open spec fn int_error_message(kind: IntErrorKind) -> Seq<char> {
    match kind {
        IntErrorKind::Empty => "cannot parse integer from empty string"@,
        IntErrorKind::InvalidDigit => "invalid digit found in string"@,
        IntErrorKind::PosOverflow => "number too large to fit in target type"@,
    }
}

/// Builds the message that describes why a number could not be read.
pub fn int_error_text(kind: IntErrorKind) -> (s: String)
    ensures
        s@ == int_error_message(kind),
{
    match kind {
        IntErrorKind::Empty => String::from_str("cannot parse integer from empty string"),
        IntErrorKind::InvalidDigit => String::from_str("invalid digit found in string"),
        IntErrorKind::PosOverflow => String::from_str("number too large to fit in target type"),
    }
}

/// Default of `MAX_FILE_SIZE`: 100 MiB.
pub const DEFAULT_MAX_FILE_SIZE: u64 = 104857600;

/// Default of `CHUNK_SIZE`: 64 KiB.
pub const DEFAULT_CHUNK_SIZE: usize = 65536;

/// The numeric setting `name` as read from `raw` (absent: `default`), no
/// larger than `max`.
pub open spec fn numeric_setting(raw: Option<Seq<char>>, default: nat, max: nat) -> Result<nat, IntErrorKind> {
    match raw {
        Some(v) => parse_unsigned(v, max),
        None => Ok(default),
    }
}

/// Looks up `key` in `vars`.
pub fn lookup(vars: &Vec<(String, String)>, key: &str) -> (r: Option<String>)
    ensures
        match (r, lookup_var(vars@, key@)) {
            (Some(v), Some(w)) => v@ == w,
            (None, None) => true,
            _ => false,
        },
{
    let wanted = String::from_str(key);
    let mut i: usize = 0;
    assert(vars@.subrange(0, vars@.len() as int) =~= vars@);
    while i < vars.len()
        invariant
            i <= vars.len(),
            wanted@ == key@,
            lookup_var(vars@, key@) == lookup_var(vars@.subrange(i as int, vars@.len() as int), key@),
        decreases vars.len() - i,
    {
        let ghost rest = vars@.subrange(i as int, vars@.len() as int);
        assert(rest.drop_first() =~= vars@.subrange(i + 1, vars@.len() as int));
        assert(rest[0] == vars@[i as int]);
        if vars[i].0 == wanted {
            return Some(vars[i].1.clone());
        }
        i = i + 1;
    }
    None
}

/// Reads a numeric setting: the value of `key` if set, else `default`.
fn read_numeric(vars: &Vec<(String, String)>, key: &str, default: u64, max: u64) -> (r: Result<u64, IntErrorKind>)
    requires
        default <= max,
    ensures
        match (r, numeric_setting(lookup_var(vars@, key@), default as nat, max as nat)) {
            (Ok(v), Ok(w)) => v == w,
            (Err(e), Err(f)) => e == f,
            _ => false,
        },
{
    match lookup(vars, key) {
        Some(v) => parse_unsigned_str(v.as_str(), max),
        None => Ok(default),
    }
}

/// What the configuration is for the given environment variables.
pub open spec fn config_outcome(vars: Seq<(String, String)>) -> ConfigOutcome {
    let max_file_size = numeric_setting(lookup_var(vars, "MAX_FILE_SIZE"@), DEFAULT_MAX_FILE_SIZE as nat, u64::MAX as nat);
    let chunk_size = numeric_setting(lookup_var(vars, "CHUNK_SIZE"@), DEFAULT_CHUNK_SIZE as nat, usize::MAX as nat);
    if max_file_size is Err {
        ConfigOutcome::Invalid("MAX_FILE_SIZE"@, int_error_message(max_file_size->Err_0))
    } else if chunk_size is Err {
        ConfigOutcome::Invalid("CHUNK_SIZE"@, int_error_message(chunk_size->Err_0))
    } else if lookup_var(vars, "AUTH_TOKEN"@) is None {
        ConfigOutcome::Missing("AUTH_TOKEN"@)
    } else {
        ConfigOutcome::Loaded {
            listen_addr: match lookup_var(vars, "LISTEN_ADDR"@) {
                Some(v) => v,
                None => "[::]:50051"@,
            },
            rest_addr: lookup_var(vars, "REST_ADDR"@),
            auth_token: lookup_var(vars, "AUTH_TOKEN"@)->Some_0,
            storage_path: match lookup_var(vars, "STORAGE_PATH"@) {
                Some(v) => v,
                None => "./uploads"@,
            },
            max_file_size: max_file_size->Ok_0,
            chunk_size: chunk_size->Ok_0,
        }
    }
}

/// The abstract result of reading the configuration.
pub ghost enum ConfigOutcome {
    Loaded {
        listen_addr: Seq<char>,
        rest_addr: Option<Seq<char>>,
        auth_token: Seq<char>,
        storage_path: Seq<char>,
        max_file_size: nat,
        chunk_size: nat,
    },
    Missing(Seq<char>),
    Invalid(Seq<char>, Seq<char>),
}

impl Config {
    /// Whether this configuration is the one that `outcome` describes.
    pub open spec fn matches(&self, outcome: ConfigOutcome) -> bool {
        outcome matches ConfigOutcome::Loaded {
            listen_addr, rest_addr, auth_token, storage_path, max_file_size, chunk_size,
        } && self.listen_addr@ == listen_addr && match (self.rest_addr, rest_addr) {
            (Some(a), Some(b)) => a@ == b,
            (None, None) => true,
            _ => false,
        } && self.auth_token@ == auth_token && self.storage_path@ == storage_path
            && self.max_file_size == max_file_size && self.chunk_size == chunk_size
    }

    /// Builds the configuration from environment variables given as
    /// `(name, value)` pairs. `AUTH_TOKEN` is required; `LISTEN_ADDR`
    /// (`[::]:50051`), `REST_ADDR` (unset), `STORAGE_PATH` (`./uploads`),
    /// `MAX_FILE_SIZE` (104857600) and `CHUNK_SIZE` (65536) have defaults.
    /// Numbers are checked first, `MAX_FILE_SIZE` before `CHUNK_SIZE`, then
    /// the token.
    pub fn from_env_vars(vars: &Vec<(String, String)>) -> (r: Result<Config, ConfigError>)
        ensures
            match (r, config_outcome(vars@)) {
                (Ok(c), o) => c.matches(o),
                (Err(ConfigError::Missing(k)), ConfigOutcome::Missing(l)) => k@ == l,
                (Err(ConfigError::Invalid(k, m)), ConfigOutcome::Invalid(l, n)) => k@ == l && m@ == n,
                _ => false,
            },
    {
        let max_file_size = match read_numeric(vars, "MAX_FILE_SIZE", DEFAULT_MAX_FILE_SIZE, u64::MAX) {
            Ok(v) => v,
            Err(kind) => {
                return Err(ConfigError::Invalid(String::from_str("MAX_FILE_SIZE"), int_error_text(kind)));
            },
        };
        let chunk_size = match read_numeric(vars, "CHUNK_SIZE", DEFAULT_CHUNK_SIZE as u64, usize::MAX as u64) {
            Ok(v) => v as usize,
            Err(kind) => {
                return Err(ConfigError::Invalid(String::from_str("CHUNK_SIZE"), int_error_text(kind)));
            },
        };
        let auth_token = match lookup(vars, "AUTH_TOKEN") {
            Some(t) => t,
            None => {
                return Err(ConfigError::Missing(String::from_str("AUTH_TOKEN")));
            },
        };
        let listen_addr = match lookup(vars, "LISTEN_ADDR") {
            Some(v) => v,
            None => String::from_str("[::]:50051"),
        };
        let storage_path = match lookup(vars, "STORAGE_PATH") {
            Some(v) => v,
            None => String::from_str("./uploads"),
        };
        let rest_addr = lookup(vars, "REST_ADDR");
        Ok(Config { listen_addr, rest_addr, auth_token, storage_path, max_file_size, chunk_size })
    }
}


/// Whether no pair of `vars` names `key`.
pub open spec fn unbound(vars: Seq<(String, String)>, key: Seq<char>) -> bool {
    forall|j: int| 0 <= j < vars.len() ==> (#[trigger] vars[j]).0@ != key
}

/// Whether the pair at `i` is the first in `vars` that names `key`.
pub open spec fn first_binding(vars: Seq<(String, String)>, key: Seq<char>, i: int) -> bool {
    &&& 0 <= i < vars.len()
    &&& vars[i].0@ == key
    &&& forall|j: int| 0 <= j < i ==> (#[trigger] vars[j]).0@ != key
}

proof fn lemma_lookup_var_first(vars: Seq<(String, String)>, key: Seq<char>, i: int)
    ensures
        unbound(vars, key) ==> lookup_var(vars, key) is None,
        first_binding(vars, key, i) ==> lookup_var(vars, key) == Some(vars[i].1@),
    decreases vars.len(),
{
    if vars.len() > 0 {
        lemma_lookup_var_first(vars.drop_first(), key, i - 1);
        if unbound(vars, key) {
            assert forall|j: int| 0 <= j < vars.drop_first().len() implies (#[trigger] vars.drop_first()[j]).0@
                != key by {
                assert(vars.drop_first()[j] == vars[j + 1]);
            }
        }
        if first_binding(vars, key, i) && i > 0 {
            assert(vars[0].0@ != key);
            assert forall|j: int| 0 <= j < i - 1 implies (#[trigger] vars.drop_first()[j]).0@ != key by {
                assert(vars.drop_first()[j] == vars[j + 1]);
            }
            assert(vars.drop_first()[i - 1] == vars[i]);
        }
    }
}

/// Each setting of a loaded configuration comes from its own variable, from
/// the first pair that names it, whatever else is set; an unset address or
/// path takes its default (`[::]:50051`, no REST address, `./uploads`), and
/// unset sizes take theirs (104857600 and 65536 bytes).
pub proof fn law_settings_come_from_their_own_variables(vars: Seq<(String, String)>, c: Config, i: int)
    requires
        c.matches(config_outcome(vars)),
    ensures
        unbound(vars, "LISTEN_ADDR"@) ==> c.listen_addr@ == "[::]:50051"@,
        first_binding(vars, "LISTEN_ADDR"@, i) ==> c.listen_addr@ == vars[i].1@,
        unbound(vars, "REST_ADDR"@) ==> c.rest_addr is None,
        first_binding(vars, "REST_ADDR"@, i) ==> (c.rest_addr matches Some(a) && a@ == vars[i].1@),
        unbound(vars, "STORAGE_PATH"@) ==> c.storage_path@ == "./uploads"@,
        first_binding(vars, "STORAGE_PATH"@, i) ==> c.storage_path@ == vars[i].1@,
        first_binding(vars, "AUTH_TOKEN"@, i) ==> c.auth_token@ == vars[i].1@,
        unbound(vars, "MAX_FILE_SIZE"@) ==> c.max_file_size == 104857600,
        unbound(vars, "CHUNK_SIZE"@) ==> c.chunk_size == 65536,
{
    lemma_lookup_var_first(vars, "LISTEN_ADDR"@, i);
    lemma_lookup_var_first(vars, "REST_ADDR"@, i);
    lemma_lookup_var_first(vars, "STORAGE_PATH"@, i);
    lemma_lookup_var_first(vars, "AUTH_TOKEN"@, i);
    lemma_lookup_var_first(vars, "MAX_FILE_SIZE"@, i);
    lemma_lookup_var_first(vars, "CHUNK_SIZE"@, i);
}

} // verus!
