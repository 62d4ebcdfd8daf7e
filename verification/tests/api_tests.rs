use deposit_graph::api::{
    deposit, finish_blob_update, get_shares, shares_reply, sign_up, test_rpc_reply,
    transaction_reply, unsupported_chain, update_shares, withdraw, BlobUpdate, ContractCall,
    Deposit, HttpStatus, Operation, Reply, ResponseData, UserAction, Withdraw,
};
use deposit_graph::eth::{EthAddress, TxHash, Uint256};
use deposit_graph::registry::{ContractRegistry, ProcessedEvents};

fn registry() -> ContractRegistry<&'static str> {
    let mut r = ContractRegistry::new();
    r.insert(11155111, "sepolia-contract");
    r.insert(11155420, "optimism-contract");
    r
}

fn user() -> EthAddress {
    EthAddress { bytes: [0x11; 20] }
}

fn assert_error(reply: &Reply, status: HttpStatus, message: &str) {
    assert_eq!(reply.http_status, status);
    assert_eq!(reply.body.status, "error");
    assert!(reply.body.tx_hash.is_none());
    assert_eq!(reply.body.message, message);
    assert!(reply.body.data.is_none());
}

#[test]
fn registry_insert_get_replace() {
    let mut r = registry();
    assert_eq!(r.len(), 2);
    assert_eq!(r.get(&Uint256::from_u64(11155111)), Some(&"sepolia-contract"));
    assert_eq!(r.get(&Uint256::from_u64(1)), None);
    r.insert(11155111, "replacement");
    assert_eq!(r.len(), 2);
    assert_eq!(r.get(&Uint256::from_u64(11155111)), Some(&"replacement"));
    // an id above 64 bits whose low word matches is a different chain
    assert_eq!(r.get(&Uint256 { limbs: [11155111, 1, 0, 0] }), None);
    let empty: ContractRegistry<u8> = ContractRegistry::new();
    assert!(empty.any().is_none());
    assert!(r.any().is_some());
    let mut ids = r.chain_ids();
    ids.sort();
    assert_eq!(ids, vec![11155111, 11155420]);
    assert_eq!(r.contract_of(11155420), Some(&"optimism-contract"));
    assert_eq!(r.contract_of(7), None);
    assert!(empty.chain_ids().is_empty());
}

#[test]
fn unsupported_chain_is_a_bad_request() {
    let r = registry();
    let req = UserAction { address: user(), chain_id: Uint256::from_u64(5) };
    let reply = sign_up(&r, &req).err().unwrap();
    assert_error(&reply, HttpStatus::BadRequest, "Unsupported chain ID: 5");
    let big = Uint256 { limbs: [0, 0, 1, 0] };
    assert_error(
        &unsupported_chain(&big),
        HttpStatus::BadRequest,
        "Unsupported chain ID: 340282366920938463463374607431768211456",
    );
}

#[test]
fn requests_route_to_their_chain_call() {
    let r = registry();
    let req = UserAction { address: user(), chain_id: Uint256::from_u64(11155420) };
    let (c, call) = sign_up(&r, &req).ok().unwrap();
    assert_eq!(*c, "optimism-contract");
    assert!(matches!(call, ContractCall::SignUp { from } if from.bytes == user().bytes));

    let (c, call) = get_shares(&r, &req).ok().unwrap();
    assert_eq!(*c, "optimism-contract");
    assert!(matches!(call, ContractCall::Shares { user: u } if u.bytes == user().bytes));

    let d = Deposit { address: user(), amount: Uint256::from_u64(1000), chain_id: Uint256::from_u64(11155111) };
    let (c, call) = deposit(&r, &d).ok().unwrap();
    assert_eq!(*c, "sepolia-contract");
    assert!(matches!(call, ContractCall::Deposit { value, .. } if value.limbs == [1000, 0, 0, 0]));

    let w = Withdraw { address: user(), shares: Uint256::from_u64(7), chain_id: Uint256::from_u64(11155111) };
    let (_, call) = withdraw(&r, &w).ok().unwrap();
    assert!(matches!(call, ContractCall::RequestWithdrawal { shares, .. } if shares.limbs == [7, 0, 0, 0]));
    let w = Withdraw { address: user(), shares: Uint256::from_u64(7), chain_id: Uint256::from_u64(10) };
    assert_error(&withdraw(&r, &w).err().unwrap(), HttpStatus::BadRequest, "Unsupported chain ID: 10");
}

fn hash() -> TxHash {
    TxHash { bytes: [0xcd; 32] }
}

#[test]
fn transaction_replies() {
    let ok = transaction_reply(Operation::SignUp, Ok(hash()));
    assert_eq!(ok.http_status, HttpStatus::Success);
    assert_eq!(ok.body.status, "success");
    assert_eq!(ok.body.tx_hash.as_deref(), Some(format!("0x{}", "cd".repeat(32)).as_str()));
    assert_eq!(ok.body.message, "User signed up successfully");
    assert_eq!(transaction_reply(Operation::Deposit, Ok(hash())).body.message, "Deposit successful");
    assert_eq!(
        transaction_reply(Operation::Withdraw, Ok(hash())).body.message,
        "Withdrawal request successful"
    );
    let err = transaction_reply(Operation::Deposit, Err("boom".to_string()));
    assert_error(&err, HttpStatus::InternalServerError, "Error depositing: boom");
    let err = transaction_reply(Operation::SignUp, Err("x".to_string()));
    assert_error(&err, HttpStatus::InternalServerError, "Error signing up: x");
    let err = transaction_reply(Operation::Withdraw, Err("y".to_string()));
    assert_error(&err, HttpStatus::InternalServerError, "Error requesting withdrawal: y");
}

#[test]
fn blob_update_is_accepted_once() {
    let r = registry();
    let mut processed = ProcessedEvents::new();
    let req = BlobUpdate { blob: "abc".to_string(), chain_id: Uint256::from_u64(11155111) };
    let (c, call, id) = update_shares(&r, &processed, &req).ok().unwrap();
    assert_eq!(*c, "sepolia-contract");
    assert_eq!(id, "blob_update_11155111_abc");
    assert!(matches!(call, ContractCall::BlobUpdate { ref blob } if blob == "abc"));

    // a failed call records nothing
    let reply = finish_blob_update(&mut processed, id.clone(), Err("nope".to_string()));
    assert_error(&reply, HttpStatus::InternalServerError, "Error processing blob update: nope");
    assert!(!processed.contains(&id));
    assert!(update_shares(&r, &processed, &req).is_ok());

    let reply = finish_blob_update(&mut processed, id.clone(), Ok(hash()));
    assert_eq!(reply.http_status, HttpStatus::Success);
    assert_eq!(reply.body.message, "Blob update processed successfully");
    assert!(processed.contains(&id));

    let again = update_shares(&r, &processed, &req).err().unwrap();
    assert_error(&again, HttpStatus::BadRequest, "Blob update already processed");

    // another chain or blob is a different update; an unsupported chain is refused first
    let other = BlobUpdate { blob: "abc".to_string(), chain_id: Uint256::from_u64(11155420) };
    assert!(update_shares(&r, &processed, &other).is_ok());
    let bad = BlobUpdate { blob: "abc".to_string(), chain_id: Uint256::from_u64(3) };
    assert_error(&update_shares(&r, &processed, &bad).err().unwrap(), HttpStatus::BadRequest, "Unsupported chain ID: 3");
}

#[test]
fn share_lookup_replies() {
    let ok = shares_reply(Ok(Uint256::from_u64(42)));
    assert_eq!(ok.http_status, HttpStatus::Success);
    assert_eq!(ok.body.message, "Shares retrieved successfully");
    assert!(ok.body.tx_hash.is_none());
    assert!(matches!(ok.body.data, Some(ResponseData::Shares(s)) if s.limbs == [42, 0, 0, 0]));
    let err = shares_reply(Err("e".to_string()));
    assert_error(&err, HttpStatus::InternalServerError, "Error getting shares: e");
}

#[test]
fn rpc_test_replies() {
    let ok = test_rpc_reply(Ok(0x1a2b3c));
    assert_eq!(ok.http_status, HttpStatus::Success);
    assert_eq!(ok.body.message, "Block number retrieved successfully");
    assert!(matches!(ok.body.data, Some(ResponseData::BlockNumber(ref b)) if b == "0x1a2b3c"));
    let zero = test_rpc_reply(Ok(0));
    assert!(matches!(zero.body.data, Some(ResponseData::BlockNumber(ref b)) if b == "0x0"));
    let err = test_rpc_reply(Err("down".to_string()));
    assert_error(&err, HttpStatus::InternalServerError, "Failed to get block number: down");
}
