//! Paying out a requested withdrawal: the sending account and endpoint, the transfer with
//! its gas price, and what a mined or dropped transfer leaves behind.
use vstd::prelude::*;
use crate::config::{AppConfig, ConfigError, Environment, config_error_text, rpc_url_from};
use crate::eth::{
    EthAddress, TxHash, Uint256, check_http_provider, rpc_url_accepted, rpc_url_outcome, wallet_key_outcome, saturating_product,
    u256_div, u256_saturating_mul, wallet_address_for_key, wallet_key_address,
};
use crate::events::{EventRecord, WithdrawalRequested, withdrawal_processed_fields, withdrawal_processed_record};

verus! {

/// Why a withdrawal could not be paid out.
pub enum WithdrawalError {
    /// `PRIVATE_KEY` is not set.
    MissingPrivateKey,
    /// `PRIVATE_KEY` is not a valid key.
    InvalidPrivateKey { reason: String },
    /// The chain's RPC endpoint could not be resolved.
    Config(ConfigError),
    /// The chain's RPC endpoint is not a valid URL.
    InvalidRpcUrl { reason: String },
    /// The transfer was sent but dropped without a receipt.
    TransactionFailed { tx_hash: TxHash },
}

/// The description of a withdrawal error.
pub open spec fn withdrawal_error_text(e: WithdrawalError) -> Seq<char> {
    match e {
        WithdrawalError::MissingPrivateKey => "PRIVATE_KEY must be set"@,
        WithdrawalError::InvalidPrivateKey { .. } => "Failed to parse private key"@,
        WithdrawalError::Config(c) => config_error_text(c),
        WithdrawalError::InvalidRpcUrl { reason } => reason@,
        WithdrawalError::TransactionFailed { .. } => "Transaction failed"@,
    }
}

impl WithdrawalError {
    /// The description of the error.
    pub fn message(&self) -> (s: String)
        ensures
            s@ == withdrawal_error_text(*self),
    {
        match self {
            WithdrawalError::MissingPrivateKey => "PRIVATE_KEY must be set".to_owned(),
            WithdrawalError::InvalidPrivateKey { .. } => "Failed to parse private key".to_owned(),
            WithdrawalError::Config(c) => c.message(),
            WithdrawalError::InvalidRpcUrl { reason } => reason.clone(),
            WithdrawalError::TransactionFailed { .. } => "Transaction failed".to_owned(),
        }
    }
}

/// Where and from whom a withdrawal is paid.
pub struct WithdrawalPlan {
    pub chain_id: u64,
    pub rpc_url: String,
    pub sender: EthAddress,
}

/// A value transfer to send.
#[derive(Clone, Copy, Debug)]
pub struct Transfer {
    pub to: EthAddress,
    pub value: Uint256,
    pub from: EthAddress,
    pub gas_price: Uint256,
    pub gas: Option<Uint256>,
}

/// How preparing a withdrawal on a chain comes out: the key read from `PRIVATE_KEY`, the
/// account it gives, the chain's endpoint and its acceptance as a URL, in that order.
pub open spec fn withdrawal_prepared(
    config: AppConfig,
    env: Environment,
    chain_id: nat,
    r: Result<WithdrawalPlan, WithdrawalError>,
) -> bool {
    let key = env.lookup("PRIVATE_KEY"@);
    match r {
        Ok(plan) => {
            &&& key is Some
            &&& wallet_key_address(key->0) == Some(plan.sender.bytes@)
            &&& plan.chain_id == chain_id
            &&& rpc_url_from(config.chain_configs@, env, plan.chain_id, Ok(plan.rpc_url))
            &&& rpc_url_accepted(plan.rpc_url@)
        },
        Err(WithdrawalError::MissingPrivateKey) => key is None,
        Err(WithdrawalError::InvalidPrivateKey { reason }) => key is Some && wallet_key_outcome(
            key->0,
        ) == Err::<Seq<u8>, Seq<char>>(reason@),
        Err(WithdrawalError::Config(e)) => {
            &&& key is Some
            &&& wallet_key_address(key->0) is Some
            &&& rpc_url_from(config.chain_configs@, env, chain_id as u64, Err(e))
        },
        Err(WithdrawalError::InvalidRpcUrl { reason }) => {
            &&& key is Some
            &&& wallet_key_address(key->0) is Some
            &&& exists|url: String|
                rpc_url_from(config.chain_configs@, env, chain_id as u64, Ok(url))
                    && rpc_url_outcome(url@) == Err::<(), Seq<char>>(reason@)
        },
        Err(WithdrawalError::TransactionFailed { .. }) => false,
    }
}

/// Prepares paying out a withdrawal on a chain. The chain id is read as a 64-bit integer,
/// which fails (panics) for larger values.
pub fn prepare_withdrawal(config: &AppConfig, env: &Environment, chain_id: &Uint256) -> (r: Result<
    WithdrawalPlan,
    WithdrawalError,
>)
    requires
        chain_id@ <= u64::MAX,
    ensures
        withdrawal_prepared(*config, *env, chain_id@, r),
{
    let key = match env.get("PRIVATE_KEY") {
        Some(k) => k,
        None => {
            return Err(WithdrawalError::MissingPrivateKey);
        },
    };
    let sender = match wallet_address_for_key(key.as_str()) {
        Ok(a) => a,
        Err(reason) => {
            return Err(WithdrawalError::InvalidPrivateKey { reason });
        },
    };
    let id = chain_id.as_u64();
    let rpc_url = match config.get_rpc_url(id, env) {
        Ok(u) => u,
        Err(e) => {
            return Err(WithdrawalError::Config(e));
        },
    };
    match check_http_provider(rpc_url.as_str()) {
        Ok(()) => {},
        Err(reason) => {
            assert(rpc_url_from(config.chain_configs@, *env, id, Ok(rpc_url)));
            return Err(WithdrawalError::InvalidRpcUrl { reason });
        },
    }
    Ok(WithdrawalPlan { chain_id: id, rpc_url, sender })
}

/// The gas price offered: the network's price with a 20% margin, computed as
/// `price * 120 / 100` where the product saturates at the largest 256-bit value.
pub open spec fn buffered_gas_price(network_price: nat) -> nat {
    saturating_product(network_price, 120) / 100
}

/// The network's gas price with a 20% margin.
pub fn gas_price_with_buffer(network_price: &Uint256) -> (r: Uint256)
    ensures
        r@ == buffered_gas_price(network_price@),
{
    let scaled = u256_saturating_mul(network_price, &Uint256::from_u64(120));
    u256_div(&scaled, &Uint256::from_u64(100))
}

/// The transfer paying out a withdrawal: the requested token amount to the user, from the
/// service's account, at the network's gas price with the margin; the gas limit is set
/// once estimated.
pub fn withdrawal_transfer(
    plan: &WithdrawalPlan,
    request: &WithdrawalRequested,
    network_gas_price: &Uint256,
) -> (t: Transfer)
    ensures
        t.to == request.user,
        t.value == request.token_amount,
        t.from == plan.sender,
        t.gas_price@ == buffered_gas_price(network_gas_price@),
        t.gas is None,
{
    Transfer {
        to: request.user,
        value: request.token_amount,
        from: plan.sender,
        gas_price: gas_price_with_buffer(network_gas_price),
        gas: None,
    }
}

impl Transfer {
    /// The same transfer with its gas limit set.
    pub fn with_gas(self, gas: Uint256) -> (t: Transfer)
        ensures
            t == (Transfer { gas: Some(gas), ..self }),
    {
        Transfer { gas: Some(gas), ..self }
    }
}

/// What a sent payout leaves behind: the record of the processed withdrawal where the
/// transfer was mined (in block `mined_in`), or the failure where it was dropped.
pub fn withdrawal_outcome(
    chain_id: &Uint256,
    request: &WithdrawalRequested,
    tx_hash: &TxHash,
    mined_in: Option<u64>,
) -> (r: Result<EventRecord, WithdrawalError>)
    ensures
        match mined_in {
            Some(b) => r matches Ok(rec) && rec@ == withdrawal_processed_fields(
                chain_id@,
                *request,
                *tx_hash,
                b as nat,
            ),
            None => r matches Err(WithdrawalError::TransactionFailed { tx_hash: h }) && h
                == *tx_hash,
        },
{
    match mined_in {
        Some(b) => Ok(withdrawal_processed_record(chain_id, request, tx_hash, b)),
        None => Err(WithdrawalError::TransactionFailed { tx_hash: *tx_hash }),
    }
}

} // verus!
