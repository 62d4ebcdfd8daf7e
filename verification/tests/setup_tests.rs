use deposit_graph::config::{AppConfig, Environment};
use deposit_graph::contracts::{initialize_contracts, InitError};
use deposit_graph::eth::{parse_address, TxHash, Uint256};
use deposit_graph::events::WithdrawalRequested;
use deposit_graph::withdrawal::{
    gas_price_with_buffer, prepare_withdrawal, withdrawal_outcome, withdrawal_transfer,
    WithdrawalError,
};

// The first development account of Hardhat and Anvil (a published test key).
const TEST_KEY: &str = "0xac0974bec39a17e36ba4a6b4d238ff944bacb478cbed5efcae784d7bf4f2ff80";
const TEST_ADDRESS: &str = "0xf39fd6e51aad88f6f4ce6ab8827279cfffb92266";
const CONTRACT: &str = "0x5fbdb2315678afecb367f032d93f642f64180aa3";

fn env(pairs: &[(&str, &str)]) -> Environment {
    Environment { vars: pairs.iter().map(|(k, v)| (k.to_string(), v.to_string())).collect() }
}

fn config(key: &str) -> AppConfig {
    AppConfig::from_env(&env(&[("PRIVATE_KEY", key), ("DRPC_API_KEY", "d")])).ok().unwrap()
}

fn full_env() -> Vec<(&'static str, &'static str)> {
    vec![
        ("PRIVATE_KEY", TEST_KEY),
        ("ETHEREUM_SEPOLIA_RPC_URL", "http://localhost:8545"),
        ("OPTIMISM_SEPOLIA_RPC_URL", "https://optimism.example/rpc"),
        ("ETHEREUM_SEPOLIA_CONTRACT_ADDRESS", CONTRACT),
        ("OPTIMISM_SEPOLIA_CONTRACT_ADDRESS", CONTRACT),
    ]
}

#[test]
fn gas_price_margin() {
    assert_eq!(gas_price_with_buffer(&Uint256::from_u64(100)).limbs, [120, 0, 0, 0]);
    assert_eq!(gas_price_with_buffer(&Uint256::from_u64(101)).limbs, [121, 0, 0, 0]);
    assert_eq!(gas_price_with_buffer(&Uint256::from_u64(0)).limbs, [0, 0, 0, 0]);
    assert_eq!(gas_price_with_buffer(&Uint256::from_u64(u64::MAX)).to_decimal(), "22136092888451461938");
    // the product saturates before the division
    let max = Uint256 { limbs: [u64::MAX; 4] };
    assert_eq!(
        gas_price_with_buffer(&max).to_decimal(),
        "1157920892373161954235709850086879078532699846656405640394575840079131296399"
    );
}

#[test]
fn withdrawal_preparation() {
    let c = config(TEST_KEY);
    let e = env(&full_env());
    let plan = prepare_withdrawal(&c, &e, &Uint256::from_u64(11155111)).ok().unwrap();
    assert_eq!(plan.chain_id, 11155111);
    assert_eq!(plan.rpc_url, "http://localhost:8545");
    assert_eq!(plan.sender.bytes, parse_address(TEST_ADDRESS).unwrap().bytes);

    let no_key = env(&[("ETHEREUM_SEPOLIA_RPC_URL", "http://localhost:8545")]);
    let err = prepare_withdrawal(&c, &no_key, &Uint256::from_u64(11155111)).err().unwrap();
    assert!(matches!(err, WithdrawalError::MissingPrivateKey));
    assert_eq!(err.message(), "PRIVATE_KEY must be set");

    let bad_key = env(&[("PRIVATE_KEY", "0x1234")]);
    let err = prepare_withdrawal(&c, &bad_key, &Uint256::from_u64(11155111)).err().unwrap();
    assert!(matches!(err, WithdrawalError::InvalidPrivateKey { .. }));
    assert_eq!(err.message(), "Failed to parse private key");

    let err = prepare_withdrawal(&c, &e, &Uint256::from_u64(1)).err().unwrap();
    assert_eq!(err.message(), "Unsupported chain ID: 1");

    let no_url = env(&[("PRIVATE_KEY", TEST_KEY)]);
    let err = prepare_withdrawal(&c, &no_url, &Uint256::from_u64(11155420)).err().unwrap();
    assert_eq!(err.message(), "OPTIMISM_SEPOLIA_RPC_URL must be set");

    let bad_url = env(&[("PRIVATE_KEY", TEST_KEY), ("ETHEREUM_SEPOLIA_RPC_URL", "not a url")]);
    let err = prepare_withdrawal(&c, &bad_url, &Uint256::from_u64(11155111)).err().unwrap();
    assert!(matches!(err, WithdrawalError::InvalidRpcUrl { .. }));
}

#[test]
fn withdrawal_transfer_and_outcome() {
    let c = config(TEST_KEY);
    let e = env(&full_env());
    let plan = prepare_withdrawal(&c, &e, &Uint256::from_u64(11155111)).ok().unwrap();
    let user = parse_address(CONTRACT).unwrap();
    let req = WithdrawalRequested { user, shares_withdrawn: Uint256::from_u64(3), token_amount: Uint256::from_u64(5000) };
    let t = withdrawal_transfer(&plan, &req, &Uint256::from_u64(1000));
    assert_eq!(t.to.bytes, user.bytes);
    assert_eq!(t.from.bytes, plan.sender.bytes);
    assert_eq!(t.value.limbs, [5000, 0, 0, 0]);
    assert_eq!(t.gas_price.limbs, [1200, 0, 0, 0]);
    assert!(t.gas.is_none());
    let t = t.with_gas(Uint256::from_u64(21000));
    assert_eq!(t.gas.unwrap().limbs, [21000, 0, 0, 0]);

    let h = TxHash { bytes: [2; 32] };
    let rec = withdrawal_outcome(&Uint256::from_u64(11155111), &req, &h, Some(99)).ok().unwrap();
    assert_eq!(rec.fields[0].1, "WithdrawalProcessed");
    assert_eq!(rec.fields[6], ("block_number".to_string(), "99".to_string()));
    let err = withdrawal_outcome(&Uint256::from_u64(11155111), &req, &h, None).err().unwrap();
    assert_eq!(err.message(), "Transaction failed");
}

#[test]
fn contracts_set_up_for_every_chain() {
    let c = config(TEST_KEY);
    let setups = initialize_contracts(&c, &env(&full_env())).ok().unwrap();
    assert_eq!(setups.len(), 2);
    assert_eq!(setups[0].chain_id, 11155111);
    assert_eq!(setups[0].rpc_url, "http://localhost:8545");
    assert_eq!(setups[1].chain_id, 11155420);
    assert_eq!(setups[1].rpc_url, "https://optimism.example/rpc");
    assert_eq!(setups[1].contract_address.bytes, parse_address(CONTRACT).unwrap().bytes);
}

#[test]
fn contract_setup_errors() {
    let c = config(TEST_KEY);
    // missing endpoint of the first chain
    let mut vars = full_env();
    vars.retain(|(k, _)| *k != "ETHEREUM_SEPOLIA_RPC_URL");
    let err = initialize_contracts(&c, &env(&vars)).err().unwrap();
    assert!(matches!(err, InitError::Config(_)));
    assert_eq!(err.message(), "ETHEREUM_SEPOLIA_RPC_URL must be set");

    let mut vars = full_env();
    vars[1] = ("ETHEREUM_SEPOLIA_RPC_URL", "::not-a-url");
    assert!(matches!(initialize_contracts(&c, &env(&vars)).err().unwrap(), InitError::InvalidRpcUrl { .. }));

    let bad = config("zz");
    assert!(matches!(initialize_contracts(&bad, &env(&full_env())).err().unwrap(), InitError::InvalidPrivateKey { .. }));

    let mut vars = full_env();
    vars.retain(|(k, _)| *k != "OPTIMISM_SEPOLIA_CONTRACT_ADDRESS");
    let err = initialize_contracts(&c, &env(&vars)).err().unwrap();
    assert_eq!(err.message(), "Missing environment variable: OPTIMISM_SEPOLIA_CONTRACT_ADDRESS");

    let mut vars = full_env();
    vars[3] = ("ETHEREUM_SEPOLIA_CONTRACT_ADDRESS", "0x1234");
    let err = initialize_contracts(&c, &env(&vars)).err().unwrap();
    assert!(matches!(err, InitError::InvalidContractAddress { ref value, .. } if value == "0x1234"));
    assert_eq!(err.message(), "Invalid input length");
}

#[test]
fn setup_errors_carry_the_outside_texts() {
    let c = config(TEST_KEY);
    let bad_url = env(&[("PRIVATE_KEY", TEST_KEY), ("ETHEREUM_SEPOLIA_RPC_URL", "not a url")]);
    let err = prepare_withdrawal(&c, &bad_url, &Uint256::from_u64(11155111)).err().unwrap();
    let expected = ethers::providers::Provider::<ethers::providers::Http>::try_from("not a url")
        .err()
        .unwrap()
        .to_string();
    assert!(!expected.is_empty());
    assert_eq!(err.message(), expected);
    match err {
        WithdrawalError::InvalidRpcUrl { reason } => assert_eq!(reason, expected),
        _ => panic!("expected an invalid URL"),
    }

    let key_text = "zz";
    let expected = key_text.parse::<ethers::signers::LocalWallet>().err().unwrap().to_string();
    match initialize_contracts(&config(key_text), &env(&full_env())).err().unwrap() {
        InitError::InvalidPrivateKey { reason } => assert_eq!(reason, expected),
        _ => panic!("expected an invalid key"),
    }
    let bad_key = env(&[("PRIVATE_KEY", key_text)]);
    match prepare_withdrawal(&c, &bad_key, &Uint256::from_u64(11155111)).err().unwrap() {
        WithdrawalError::InvalidPrivateKey { reason } => assert_eq!(reason, expected),
        _ => panic!("expected an invalid key"),
    }

    let mut vars = full_env();
    vars[3] = ("ETHEREUM_SEPOLIA_CONTRACT_ADDRESS", "0x12g4");
    match initialize_contracts(&c, &env(&vars)).err().unwrap() {
        InitError::InvalidContractAddress { value, reason } => {
            assert_eq!(value, "0x12g4");
            assert_eq!(reason, "Invalid character 'g' at position 2");
        }
        _ => panic!("expected an invalid address"),
    }
}
