//! Setting up the contract of every configured chain: its endpoint, the signing key, and
//! the deployed contract's address.
use vstd::prelude::*;
use crate::config::{AppConfig, ChainConfig, ConfigError, Environment, config_error_text, rpc_url_from};
use crate::eth::{
    EthAddress, address_error_text, check_http_provider, parse_address, parsed_address,
    rpc_url_accepted, rpc_url_outcome, wallet_key_outcome,
    wallet_address_for_key, wallet_key_address,
};

verus! {

/// What the contract of one chain is set up with.
pub struct ContractSetup {
    pub chain_id: u64,
    pub rpc_url: String,
    pub contract_address: EthAddress,
}

/// Why the contracts could not be set up.
pub enum InitError {
    /// The chain's RPC endpoint could not be resolved.
    Config(ConfigError),
    /// The chain's RPC endpoint is not a valid URL.
    InvalidRpcUrl { reason: String },
    /// The configured private key is not a valid key.
    InvalidPrivateKey { reason: String },
    /// The environment variable that holds the chain's contract address is not set.
    MissingContractAddress { name: String },
    /// The chain's contract address is not a valid address; `value` is the text read and
    /// `reason` the address parser's description of the error.
    InvalidContractAddress { value: String, reason: String },
}

/// The description of a set-up error.
pub open spec fn init_error_text(e: InitError) -> Seq<char> {
    match e {
        InitError::Config(c) => config_error_text(c),
        InitError::InvalidRpcUrl { reason } => reason@,
        InitError::InvalidPrivateKey { reason } => reason@,
        InitError::MissingContractAddress { name } => "Missing environment variable: "@ + name@,
        InitError::InvalidContractAddress { reason, .. } => reason@,
    }
}

impl InitError {
    /// The description of the error.
    pub fn message(&self) -> (s: String)
        ensures
            s@ == init_error_text(*self),
    {
        match self {
            InitError::Config(c) => c.message(),
            InitError::InvalidRpcUrl { reason } => reason.clone(),
            InitError::InvalidPrivateKey { reason } => reason.clone(),
            InitError::MissingContractAddress { name } => {
                let mut s = "Missing environment variable: ".to_owned();
                s.append(name.as_str());
                s
            },
            InitError::InvalidContractAddress { reason, .. } => reason.clone(),
        }
    }
}

/// The contract of chain `c` is set up as `s`.
pub open spec fn chain_set_up(config: AppConfig, env: Environment, c: ChainConfig, s: ContractSetup) -> bool {
    &&& s.chain_id == c.chain_id
    &&& rpc_url_from(config.chain_configs@, env, c.chain_id, Ok(s.rpc_url))
    &&& rpc_url_accepted(s.rpc_url@)
    &&& wallet_key_address(config.private_key@) is Some
    &&& env.lookup(c.contract_address_env@) is Some
    &&& parsed_address(env.lookup(c.contract_address_env@)->0) == Some(s.contract_address.bytes@)
}

/// The contract of chain `c` can be set up.
pub open spec fn chain_ready(config: AppConfig, env: Environment, c: ChainConfig) -> bool {
    exists|s: ContractSetup| chain_set_up(config, env, c, s)
}

/// Setting up the contract of chain `c` fails with `e`: the first of its steps that fails
/// (endpoint, endpoint URL, key, address variable, address) gives the error.
pub open spec fn chain_fails(config: AppConfig, env: Environment, c: ChainConfig, e: InitError) -> bool {
    let cs = config.chain_configs@;
    let endpoint_ok = exists|url: String|
        rpc_url_from(cs, env, c.chain_id, Ok(url)) && rpc_url_accepted(url@);
    let address = env.lookup(c.contract_address_env@);
    match e {
        InitError::Config(ce) => rpc_url_from(cs, env, c.chain_id, Err(ce)),
        InitError::InvalidRpcUrl { reason } => exists|url: String|
            rpc_url_from(cs, env, c.chain_id, Ok(url)) && rpc_url_outcome(url@) == Err::<
                (),
                Seq<char>,
            >(reason@),
        InitError::InvalidPrivateKey { reason } => endpoint_ok && wallet_key_outcome(
            config.private_key@,
        ) == Err::<Seq<u8>, Seq<char>>(reason@),
        InitError::MissingContractAddress { name } => {
            &&& endpoint_ok
            &&& wallet_key_address(config.private_key@) is Some
            &&& name@ == c.contract_address_env@
            &&& address is None
        },
        InitError::InvalidContractAddress { value, reason } => {
            &&& endpoint_ok
            &&& wallet_key_address(config.private_key@) is Some
            &&& address == Some(value@)
            &&& parsed_address(value@) is None
            &&& reason@ == address_error_text(value@)
        },
    }
}

fn set_up_chain(config: &AppConfig, env: &Environment, c: &ChainConfig) -> (r: Result<
    ContractSetup,
    InitError,
>)
    ensures
        match r {
            Ok(s) => chain_set_up(*config, *env, *c, s),
            Err(e) => chain_fails(*config, *env, *c, e),
        },
{
    let rpc_url = match config.get_rpc_url(c.chain_id, env) {
        Ok(u) => u,
        Err(e) => {
            return Err(InitError::Config(e));
        },
    };
    match check_http_provider(rpc_url.as_str()) {
        Ok(()) => {},
        Err(reason) => {
            assert(rpc_url_from(config.chain_configs@, *env, c.chain_id, Ok(rpc_url)));
            return Err(InitError::InvalidRpcUrl { reason });
        },
    }
    match wallet_address_for_key(config.private_key.as_str()) {
        Ok(_) => {},
        Err(reason) => {
            return Err(InitError::InvalidPrivateKey { reason });
        },
    }
    let address_text = match env.get(c.contract_address_env.as_str()) {
        Some(v) => v,
        None => {
            return Err(InitError::MissingContractAddress { name: c.contract_address_env.clone() });
        },
    };
    let contract_address = match parse_address(address_text.as_str()) {
        Ok(a) => a,
        Err(reason) => {
            return Err(InitError::InvalidContractAddress { value: address_text, reason });
        },
    };
    Ok(ContractSetup { chain_id: c.chain_id, rpc_url, contract_address })
}

/// Sets up the contract of every configured chain, in order; the first chain that cannot
/// be set up stops it with its error.
pub fn initialize_contracts(config: &AppConfig, env: &Environment) -> (r: Result<
    Vec<ContractSetup>,
    InitError,
>)
    ensures
        match r {
            Ok(setups) => {
                &&& setups@.len() == config.chain_configs@.len()
                &&& forall|i: int|
                    0 <= i < setups@.len() ==> chain_set_up(
                        *config,
                        *env,
                        config.chain_configs@[i],
                        #[trigger] setups@[i],
                    )
            },
            Err(e) => exists|i: int|
                0 <= i < config.chain_configs@.len() && (forall|k: int|
                    0 <= k < i ==> chain_ready(*config, *env, #[trigger] config.chain_configs@[k]))
                    && chain_fails(*config, *env, config.chain_configs@[i], e),
        },
{
    let mut setups: Vec<ContractSetup> = Vec::new();
    let mut i: usize = 0;
    while i < config.chain_configs.len()
        invariant
            i <= config.chain_configs@.len(),
            setups@.len() == i,
            forall|k: int|
                0 <= k < i ==> chain_set_up(
                    *config,
                    *env,
                    config.chain_configs@[k],
                    #[trigger] setups@[k],
                ),
        decreases config.chain_configs@.len() - i,
    {
        match set_up_chain(config, env, &config.chain_configs[i]) {
            Ok(s) => {
                setups.push(s);
            },
            Err(e) => {
                assert forall|k: int| 0 <= k < i implies chain_ready(
                    *config,
                    *env,
                    #[trigger] config.chain_configs@[k],
                ) by {
                    assert(chain_set_up(*config, *env, config.chain_configs@[k], setups@[k]));
                }
                return Err(e);
            },
        }
        i += 1;
    }
    Ok(setups)
}

} // verus!
