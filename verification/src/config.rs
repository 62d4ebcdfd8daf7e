//! Service configuration: the chains served, and the settings read from the environment.
use vstd::prelude::*;
use crate::text::{chars_of, decimal_text, decimal_u64, lookup_pair, pair_lookup};

verus! {

/// A snapshot of the process environment: name and value of every variable, in order.
pub struct Environment {
    pub vars: Vec<(String, String)>,
}

impl Environment {
    /// The environment's value for `key`, as the variable lookup gives it.
    pub open spec fn lookup(&self, key: Seq<char>) -> Option<Seq<char>> {
        pair_lookup(self.vars@, key)
    }

    /// Looks up a variable by name.
    pub fn get(&self, key: &str) -> (r: Option<String>)
        ensures
            r is Some <==> self.lookup(key@) is Some,
            r matches Some(v) ==> self.lookup(key@) == Some(v@),
    {
        lookup_pair(&self.vars, key)
    }
}

/// A decimal digit character.
pub open spec fn is_digit_char(c: char) -> bool {
    '0' <= c && c <= '9'
}

/// The value of a string of decimal digits.
pub open spec fn digits_value(d: Seq<char>) -> nat
    decreases d.len(),
{
    if d.len() == 0 {
        0
    } else {
        digits_value(d.drop_last()) * 10 + (d.last() as nat - 48) as nat
    }
}

/// The digits of an unsigned number: the text after an optional leading `+`.
pub open spec fn unsigned_digits(s: Seq<char>) -> Seq<char> {
    if s.len() > 0 && s[0] == '+' {
        s.subrange(1, s.len() as int)
    } else {
        s
    }
}

/// What parsing a `u16` from text gives: an optional `+`, then one or more decimal digits
/// whose value is at most 65535.
pub open spec fn parsed_u16(s: Seq<char>) -> Option<u16> {
    let d = unsigned_digits(s);
    if d.len() > 0 && (forall|i: int| 0 <= i < d.len() ==> is_digit_char(#[trigger] d[i]))
        && digits_value(d) <= 65535 {
        Some(digits_value(d) as u16)
    } else {
        None
    }
}

/// Parses a port number as `str::parse::<u16>` does.
pub fn parse_port(s: &str) -> (r: Option<u16>)
    ensures
        r == parsed_u16(s@),
{
    let chars = chars_of(s);
    let mut start: usize = 0;
    if chars.len() > 0 && chars[0] == '+' {
        start = 1;
    }
    let ghost d = unsigned_digits(s@);
    assert(d =~= chars@.subrange(start as int, chars@.len() as int));
    if start >= chars.len() {
        return None;
    }
    // The running value, capped at 65536 once it exceeds the range of a port.
    let mut acc: u32 = 0;
    let mut i: usize = start;
    while i < chars.len()
        invariant
            chars@ == s@,
            start <= i <= chars@.len(),
            d == chars@.subrange(start as int, chars@.len() as int),
            d == unsigned_digits(s@),
            forall|k: int| start <= k < i ==> is_digit_char(#[trigger] chars@[k]),
            acc as nat == if digits_value(chars@.subrange(start as int, i as int)) <= 65535 {
                digits_value(chars@.subrange(start as int, i as int))
            } else {
                65536
            },
        decreases chars@.len() - i,
    {
        let c = chars[i];
        if !('0' <= c && c <= '9') {
            assert(d[i - start] == c);
            assert(!is_digit_char(d[i - start]));
            return None;
        }
        let digit: u32 = (c as u32) - 48;
        let ghost prefix = chars@.subrange(start as int, i + 1);
        assert(prefix.drop_last() =~= chars@.subrange(start as int, i as int));
        assert(digits_value(prefix) == digits_value(prefix.drop_last()) * 10 + digit);
        if acc > 65535 {
            acc = 65536;
        } else {
            let next = acc * 10 + digit;
            if next > 65535 {
                acc = 65536;
            } else {
                acc = next;
            }
        }
        i += 1;
    }
    assert(chars@.subrange(start as int, i as int) == d);
    assert forall|k: int| 0 <= k < d.len() implies is_digit_char(#[trigger] d[k]) by {
        assert(d[k] == chars@[start + k]);
    }
    if acc > 65535 {
        None
    } else {
        Some(acc as u16)
    }
}


/// One chain the service relays for: its id, its name, and the environment variables that
/// hold the deployed contract's address and the RPC endpoint.
#[derive(Clone)]
pub struct ChainConfig {
    pub chain_id: u64,
    pub network: String,
    pub contract_address_env: String,
    pub rpc_url_env: String,
}

/// The service configuration.
#[derive(Clone)]
pub struct AppConfig {
    pub host: String,
    pub port: u16,
    pub private_key: String,
    pub drpc_api_key: String,
    pub chain_configs: Vec<ChainConfig>,
}

/// Why the configuration or a chain's settings could not be resolved.
pub enum ConfigError {
    /// A required environment variable is not set.
    MissingVariable { name: String },
    /// `PORT` is not a valid port number; `value` is the text read.
    InvalidPort { value: String },
    /// No chain with this id is configured.
    UnsupportedChain { chain_id: u64 },
}

/// The description of a configuration error.
pub open spec fn config_error_text(e: ConfigError) -> Seq<char> {
    match e {
        ConfigError::MissingVariable { name } => name@ + " must be set"@,
        ConfigError::InvalidPort { .. } => "Failed to parse PORT"@,
        ConfigError::UnsupportedChain { chain_id } => "Unsupported chain ID: "@ + decimal_text(
            chain_id as nat,
        ),
    }
}

impl ConfigError {
    /// The description of the error.
    pub fn message(&self) -> (s: String)
        ensures
            s@ == config_error_text(*self),
    {
        match self {
            ConfigError::MissingVariable { name } => {
                let mut s = name.clone();
                s.append(" must be set");
                s
            },
            ConfigError::InvalidPort { .. } => "Failed to parse PORT".to_owned(),
            ConfigError::UnsupportedChain { chain_id } => {
                let mut s = "Unsupported chain ID: ".to_owned();
                s.append(decimal_u64(*chain_id).as_str());
                s
            },
        }
    }
}

/// The chain entry with the given fields.
pub open spec fn chain_entry(
    c: ChainConfig,
    id: u64,
    network: Seq<char>,
    address_env: Seq<char>,
    rpc_env: Seq<char>,
) -> bool {
    &&& c.chain_id == id
    &&& c.network@ == network
    &&& c.contract_address_env@ == address_env
    &&& c.rpc_url_env@ == rpc_env
}

/// The chains the service is built for: Ethereum Sepolia, then Optimism Sepolia.
pub open spec fn is_supported_chain_list(cs: Seq<ChainConfig>) -> bool {
    &&& cs.len() == 2
    &&& chain_entry(
        cs[0],
        11155111,
        "sepolia"@,
        "ETHEREUM_SEPOLIA_CONTRACT_ADDRESS"@,
        "ETHEREUM_SEPOLIA_RPC_URL"@,
    )
    &&& chain_entry(
        cs[1],
        11155420,
        "optimism-sepolia"@,
        "OPTIMISM_SEPOLIA_CONTRACT_ADDRESS"@,
        "OPTIMISM_SEPOLIA_RPC_URL"@,
    )
}

/// The text the port is read from: `PORT`, or `8080` where it is not set.
pub open spec fn port_text(env: Environment) -> Seq<char> {
    match env.lookup("PORT"@) {
        Some(v) => v,
        None => "8080"@,
    }
}

/// The host to listen on: `HOST`, or `0.0.0.0` where it is not set.
pub open spec fn host_text(env: Environment) -> Seq<char> {
    match env.lookup("HOST"@) {
        Some(v) => v,
        None => "0.0.0.0"@,
    }
}

/// What loading the configuration from an environment gives.
pub open spec fn config_from(env: Environment, r: Result<AppConfig, ConfigError>) -> bool {
    match r {
        Ok(c) => {
            &&& c.host@ == host_text(env)
            &&& parsed_u16(port_text(env)) == Some(c.port)
            &&& env.lookup("PRIVATE_KEY"@) == Some(c.private_key@)
            &&& env.lookup("DRPC_API_KEY"@) == Some(c.drpc_api_key@)
            &&& is_supported_chain_list(c.chain_configs@)
        },
        Err(ConfigError::InvalidPort { value }) => {
            &&& parsed_u16(port_text(env)) is None
            &&& value@ == port_text(env)
        },
        Err(ConfigError::MissingVariable { name }) => {
            &&& parsed_u16(port_text(env)) is Some
            &&& ({
                ||| (name@ == "PRIVATE_KEY"@ && env.lookup("PRIVATE_KEY"@) is None)
                ||| (name@ == "DRPC_API_KEY"@ && env.lookup("PRIVATE_KEY"@) is Some && env.lookup(
                    "DRPC_API_KEY"@,
                ) is None)
            })
        },
        Err(ConfigError::UnsupportedChain { .. }) => false,
    }
}

/// The secrets only reach the secret fields: loading the configuration from two
/// environments that agree on `HOST` and `PORT` and set `PRIVATE_KEY` and `DRPC_API_KEY`
/// (to any values) succeeds or fails alike, with the same host, port and chains.
pub proof fn lemma_from_env_secrets_only(
    e1: Environment,
    e2: Environment,
    r1: Result<AppConfig, ConfigError>,
    r2: Result<AppConfig, ConfigError>,
)
    requires
        config_from(e1, r1),
        config_from(e2, r2),
        e1.lookup("HOST"@) == e2.lookup("HOST"@),
        e1.lookup("PORT"@) == e2.lookup("PORT"@),
        e1.lookup("PRIVATE_KEY"@) is Some,
        e2.lookup("PRIVATE_KEY"@) is Some,
        e1.lookup("DRPC_API_KEY"@) is Some,
        e2.lookup("DRPC_API_KEY"@) is Some,
    ensures
        r1 is Ok <==> r2 is Ok,
        r1 matches Ok(c1) ==> (r2 matches Ok(c2) && c1.host@ == c2.host@ && c1.port == c2.port
            && is_supported_chain_list(c1.chain_configs@) && is_supported_chain_list(
            c2.chain_configs@,
        )),
        r1 matches Err(ConfigError::InvalidPort { value: v1 }) ==> (r2 matches Err(
            ConfigError::InvalidPort { value: v2 },
        ) && v1@ == v2@),
{
}

/// `i` is the position of the first chain with id `chain_id`.
pub open spec fn first_chain_at(cs: Seq<ChainConfig>, chain_id: u64, i: int) -> bool {
    &&& 0 <= i < cs.len()
    &&& cs[i].chain_id == chain_id
    &&& forall|k: int| 0 <= k < i ==> cs[k].chain_id != chain_id
}

/// What resolving the RPC endpoint of a chain gives.
pub open spec fn rpc_url_from(
    cs: Seq<ChainConfig>,
    env: Environment,
    chain_id: u64,
    r: Result<String, ConfigError>,
) -> bool {
    match r {
        Ok(url) => exists|i: int|
            first_chain_at(cs, chain_id, i) && env.lookup(cs[i].rpc_url_env@) == Some(url@),
        Err(ConfigError::UnsupportedChain { chain_id: c }) => c == chain_id && forall|k: int|
            0 <= k < cs.len() ==> cs[k].chain_id != chain_id,
        Err(ConfigError::MissingVariable { name }) => exists|i: int|
            first_chain_at(cs, chain_id, i) && name@ == cs[i].rpc_url_env@ && env.lookup(
                cs[i].rpc_url_env@,
            ) is None,
        Err(ConfigError::InvalidPort { .. }) => false,
    }
}

/// A chain entry built from literal fields.
fn chain_config(id: u64, network: &str, address_env: &str, rpc_env: &str) -> (c: ChainConfig)
    ensures
        chain_entry(c, id, network@, address_env@, rpc_env@),
{
    ChainConfig {
        chain_id: id,
        network: network.to_owned(),
        contract_address_env: address_env.to_owned(),
        rpc_url_env: rpc_env.to_owned(),
    }
}

impl AppConfig {
    /// The chains the service is built for.
    pub fn load_chain_configs() -> (r: Vec<ChainConfig>)
        ensures
            is_supported_chain_list(r@),
    {
        let mut r: Vec<ChainConfig> = Vec::new();
        r.push(
            chain_config(
                11155111,
                "sepolia",
                "ETHEREUM_SEPOLIA_CONTRACT_ADDRESS",
                "ETHEREUM_SEPOLIA_RPC_URL",
            ),
        );
        r.push(
            chain_config(
                11155420,
                "optimism-sepolia",
                "OPTIMISM_SEPOLIA_CONTRACT_ADDRESS",
                "OPTIMISM_SEPOLIA_RPC_URL",
            ),
        );
        r
    }

    /// Loads the configuration from the environment: `HOST` (default `0.0.0.0`), `PORT`
    /// (default `8080`), `PRIVATE_KEY` and `DRPC_API_KEY` (both required), and the chains.
    pub fn from_env(env: &Environment) -> (r: Result<AppConfig, ConfigError>)
        ensures
            config_from(*env, r),
    {
        let host = match env.get("HOST") {
            Some(h) => h,
            None => "0.0.0.0".to_owned(),
        };
        let port_source = match env.get("PORT") {
            Some(p) => p,
            None => "8080".to_owned(),
        };
        assert(port_source@ == port_text(*env));
        let port = match parse_port(port_source.as_str()) {
            Some(p) => p,
            None => {
                return Err(ConfigError::InvalidPort { value: port_source });
            },
        };
        let private_key = match env.get("PRIVATE_KEY") {
            Some(k) => k,
            None => {
                return Err(ConfigError::MissingVariable { name: "PRIVATE_KEY".to_owned() });
            },
        };
        let drpc_api_key = match env.get("DRPC_API_KEY") {
            Some(k) => k,
            None => {
                return Err(ConfigError::MissingVariable { name: "DRPC_API_KEY".to_owned() });
            },
        };
        Ok(
            AppConfig {
                host,
                port,
                private_key,
                drpc_api_key,
                chain_configs: Self::load_chain_configs(),
            },
        )
    }

    /// The RPC endpoint of a chain: the first configured chain with this id names the
    /// environment variable that holds it.
    pub fn get_rpc_url(&self, chain_id: u64, env: &Environment) -> (r: Result<String, ConfigError>)
        ensures
            rpc_url_from(self.chain_configs@, *env, chain_id, r),
    {
        let mut i: usize = 0;
        while i < self.chain_configs.len()
            invariant
                i <= self.chain_configs@.len(),
                forall|k: int| 0 <= k < i ==> self.chain_configs@[k].chain_id != chain_id,
            decreases self.chain_configs@.len() - i,
        {
            if self.chain_configs[i].chain_id == chain_id {
                assert(first_chain_at(self.chain_configs@, chain_id, i as int));
                let name = &self.chain_configs[i].rpc_url_env;
                return match env.get(name.as_str()) {
                    Some(url) => Ok(url),
                    None => Err(ConfigError::MissingVariable { name: name.clone() }),
                };
            }
            i += 1;
        }
        Err(ConfigError::UnsupportedChain { chain_id })
    }
}

} // verus!
