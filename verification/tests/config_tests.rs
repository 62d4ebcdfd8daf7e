use deposit_graph::config::{parse_port, AppConfig, ConfigError, Environment};

fn env(pairs: &[(&str, &str)]) -> Environment {
    Environment {
        vars: pairs.iter().map(|(k, v)| (k.to_string(), v.to_string())).collect(),
    }
}

#[test]
fn port_parsing_follows_u16_parse() {
    assert_eq!(parse_port("8080"), Some(8080));
    assert_eq!(parse_port("+80"), Some(80));
    assert_eq!(parse_port("0"), Some(0));
    assert_eq!(parse_port("065535"), Some(65535));
    assert_eq!(parse_port("65536"), None);
    assert_eq!(parse_port("99999999999999999999"), None);
    assert_eq!(parse_port(""), None);
    assert_eq!(parse_port("+"), None);
    assert_eq!(parse_port("-1"), None);
    assert_eq!(parse_port(" 80"), None);
    assert_eq!(parse_port("80a"), None);
    for s in ["1", "443", "+7", "00012", "65535", "65536", "x", "++1"] {
        assert_eq!(parse_port(s), s.parse::<u16>().ok(), "{}", s);
    }
}

#[test]
fn environment_lookup_takes_first() {
    let e = env(&[("A", "1"), ("B", "2"), ("A", "3")]);
    assert_eq!(e.get("A"), Some("1".to_string()));
    assert_eq!(e.get("B"), Some("2".to_string()));
    assert_eq!(e.get("C"), None);
}

#[test]
fn chain_configs_are_the_two_sepolia_networks() {
    let cs = AppConfig::load_chain_configs();
    assert_eq!(cs.len(), 2);
    assert_eq!(cs[0].chain_id, 11155111);
    assert_eq!(cs[0].network, "sepolia");
    assert_eq!(cs[0].contract_address_env, "ETHEREUM_SEPOLIA_CONTRACT_ADDRESS");
    assert_eq!(cs[0].rpc_url_env, "ETHEREUM_SEPOLIA_RPC_URL");
    assert_eq!(cs[1].chain_id, 11155420);
    assert_eq!(cs[1].network, "optimism-sepolia");
    assert_eq!(cs[1].contract_address_env, "OPTIMISM_SEPOLIA_CONTRACT_ADDRESS");
    assert_eq!(cs[1].rpc_url_env, "OPTIMISM_SEPOLIA_RPC_URL");
}

#[test]
fn config_defaults() {
    let c = AppConfig::from_env(&env(&[("PRIVATE_KEY", "k"), ("DRPC_API_KEY", "d")]))
        .ok()
        .unwrap();
    assert_eq!(c.host, "0.0.0.0");
    assert_eq!(c.port, 8080);
    assert_eq!(c.private_key, "k");
    assert_eq!(c.drpc_api_key, "d");
    assert_eq!(c.chain_configs.len(), 2);
}

#[test]
fn config_from_variables() {
    let c = AppConfig::from_env(&env(&[
        ("HOST", "127.0.0.1"),
        ("PORT", "3000"),
        ("PRIVATE_KEY", "k"),
        ("DRPC_API_KEY", "d"),
    ]))
    .ok()
    .unwrap();
    assert_eq!(c.host, "127.0.0.1");
    assert_eq!(c.port, 3000);
}

#[test]
fn config_invalid_port_comes_first() {
    match AppConfig::from_env(&env(&[("PORT", "http")])) {
        Err(ConfigError::InvalidPort { value }) => assert_eq!(value, "http"),
        _ => panic!("expected an invalid port"),
    }
    let e = AppConfig::from_env(&env(&[("PORT", "70000")])).err().unwrap();
    assert_eq!(e.message(), "Failed to parse PORT");
}

#[test]
fn config_missing_private_key_then_api_key() {
    let e = AppConfig::from_env(&env(&[("DRPC_API_KEY", "d")])).err().unwrap();
    assert_eq!(e.message(), "PRIVATE_KEY must be set");
    let e = AppConfig::from_env(&env(&[("PRIVATE_KEY", "k")])).err().unwrap();
    assert_eq!(e.message(), "DRPC_API_KEY must be set");
}

#[test]
fn rpc_url_resolution() {
    let c = AppConfig::from_env(&env(&[("PRIVATE_KEY", "k"), ("DRPC_API_KEY", "d")]))
        .ok()
        .unwrap();
    let e = env(&[("OPTIMISM_SEPOLIA_RPC_URL", "https://op.example")]);
    assert_eq!(c.get_rpc_url(11155420, &e).ok().unwrap(), "https://op.example");
    let missing = c.get_rpc_url(11155111, &e).err().unwrap();
    assert_eq!(missing.message(), "ETHEREUM_SEPOLIA_RPC_URL must be set");
    match c.get_rpc_url(1, &e) {
        Err(ConfigError::UnsupportedChain { chain_id }) => assert_eq!(chain_id, 1),
        _ => panic!("expected an unsupported chain"),
    }
    assert_eq!(c.get_rpc_url(1, &e).err().unwrap().message(), "Unsupported chain ID: 1");
}

#[test]
fn secrets_reach_only_the_secret_fields() {
    let a = AppConfig::from_env(&env(&[("PORT", "9000"), ("PRIVATE_KEY", "k1"), ("DRPC_API_KEY", "d1")])).ok().unwrap();
    let b = AppConfig::from_env(&env(&[("PORT", "9000"), ("PRIVATE_KEY", "k2"), ("DRPC_API_KEY", "d2")])).ok().unwrap();
    assert_eq!((a.host.as_str(), a.port), (b.host.as_str(), b.port));
    assert_eq!(a.chain_configs.len(), b.chain_configs.len());
    assert_ne!(a.private_key, b.private_key);
}
