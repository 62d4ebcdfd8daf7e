//! The HTTP API's decisions: which contract call a request asks for, and what the client
//! is answered for each outcome.
use vstd::prelude::*;
use crate::eth::{EthAddress, TxHash, Uint256, full_hex_text};
use crate::registry::{ContractRegistry, ProcessedEvents};
use crate::text::{decimal_text, hex_text, lower_hex_u64};

verus! {

/// The HTTP status of a reply.
#[derive(Clone, Copy, Debug, PartialEq, Eq, Structural)]
pub enum HttpStatus {
    Success,
    BadRequest,
    InternalServerError,
}

/// Data carried by a successful reply.
pub enum ResponseData {
    /// The share balance of a user.
    Shares(Uint256),
    /// The latest block number, in `0x`-prefixed hex.
    BlockNumber(String),
}

/// The abstract content of [`ResponseData`].
pub enum ResponseDataView {
    Shares(nat),
    BlockNumber(Seq<char>),
}

impl View for ResponseData {
    type V = ResponseDataView;

    open spec fn view(&self) -> ResponseDataView {
        match self {
            ResponseData::Shares(s) => ResponseDataView::Shares(s@),
            ResponseData::BlockNumber(b) => ResponseDataView::BlockNumber(b@),
        }
    }
}

/// The JSON body of every reply.
pub struct ApiResponse {
    pub status: String,
    pub tx_hash: Option<String>,
    pub message: String,
    pub data: Option<ResponseData>,
}

/// The abstract content of an [`ApiResponse`].
pub struct ApiResponseView {
    pub status: Seq<char>,
    pub tx_hash: Option<Seq<char>>,
    pub message: Seq<char>,
    pub data: Option<ResponseDataView>,
}

impl View for ApiResponse {
    type V = ApiResponseView;

    open spec fn view(&self) -> ApiResponseView {
        ApiResponseView {
            status: self.status@,
            tx_hash: match self.tx_hash {
                Some(h) => Some(h@),
                None => None,
            },
            message: self.message@,
            data: match self.data {
                Some(d) => Some(d@),
                None => None,
            },
        }
    }
}

/// An HTTP reply: status and body.
pub struct Reply {
    pub http_status: HttpStatus,
    pub body: ApiResponse,
}

/// The abstract content of a [`Reply`].
pub struct ReplyView {
    pub http_status: HttpStatus,
    pub body: ApiResponseView,
}

impl View for Reply {
    type V = ReplyView;

    open spec fn view(&self) -> ReplyView {
        ReplyView { http_status: self.http_status, body: self.body@ }
    }
}

/// A reply with status `error`, no transaction hash and no data.
pub open spec fn error_reply(status: HttpStatus, message: Seq<char>) -> ReplyView {
    ReplyView {
        http_status: status,
        body: ApiResponseView { status: "error"@, tx_hash: None, message, data: None },
    }
}

/// A `200` reply with status `success`.
pub open spec fn success_reply(
    tx_hash: Option<Seq<char>>,
    message: Seq<char>,
    data: Option<ResponseDataView>,
) -> ReplyView {
    ReplyView {
        http_status: HttpStatus::Success,
        body: ApiResponseView { status: "success"@, tx_hash, message, data },
    }
}

/// The reply to a request for a chain the service does not serve.
pub open spec fn unsupported_chain_reply(chain_id: nat) -> ReplyView {
    error_reply(HttpStatus::BadRequest, "Unsupported chain ID: "@ + decimal_text(chain_id))
}

/// A request that names a user and a chain (sign-up, share lookup).
pub struct UserAction {
    pub address: EthAddress,
    pub chain_id: Uint256,
}

/// A request to deposit `amount` from `address`.
pub struct Deposit {
    pub address: EthAddress,
    pub amount: Uint256,
    pub chain_id: Uint256,
}

/// A request to withdraw `shares` for `address`.
pub struct Withdraw {
    pub address: EthAddress,
    pub shares: Uint256,
    pub chain_id: Uint256,
}

/// A request to publish a shares blob.
pub struct BlobUpdate {
    pub blob: String,
    pub chain_id: Uint256,
}

/// A call of the deposit graph contract.
pub enum ContractCall {
    /// `signUp()` sent from `from`.
    SignUp { from: EthAddress },
    /// `deposit()` sent from `from` with `value` attached.
    Deposit { from: EthAddress, value: Uint256 },
    /// `requestWithdrawal(shares)` sent from `from`.
    RequestWithdrawal { from: EthAddress, shares: Uint256 },
    /// The read-only `shares(user)` query.
    Shares { user: EthAddress },
    /// `blobUpdate(blob)` sent from the service's own account.
    BlobUpdate { blob: String },
}

/// The transaction-sending operations of the API.
#[derive(Clone, Copy, Debug, PartialEq, Eq, Structural)]
pub enum Operation {
    SignUp,
    Deposit,
    Withdraw,
    BlobUpdate,
}

/// The message of a successful operation.
pub open spec fn success_message(op: Operation) -> Seq<char> {
    match op {
        Operation::SignUp => "User signed up successfully"@,
        Operation::Deposit => "Deposit successful"@,
        Operation::Withdraw => "Withdrawal request successful"@,
        Operation::BlobUpdate => "Blob update processed successfully"@,
    }
}

/// The message prefix of a failed operation, followed by the error's description.
pub open spec fn failure_prefix(op: Operation) -> Seq<char> {
    match op {
        Operation::SignUp => "Error signing up: "@,
        Operation::Deposit => "Error depositing: "@,
        Operation::Withdraw => "Error requesting withdrawal: "@,
        Operation::BlobUpdate => "Error processing blob update: "@,
    }
}

/// The id under which a blob update is remembered.
pub open spec fn blob_event_id(chain_id: nat, blob: Seq<char>) -> Seq<char> {
    "blob_update_"@ + decimal_text(chain_id) + "_"@ + blob
}

/// The reply to a blob update that was handled before.
pub open spec fn already_processed_reply() -> ReplyView {
    error_reply(HttpStatus::BadRequest, "Blob update already processed"@)
}

/// The registry serves the chain with this id.
pub open spec fn serves<C>(contracts: &ContractRegistry<C>, chain_id: nat) -> bool {
    chain_id <= u64::MAX && contracts.view().contains_key(chain_id as u64)
}

/// How routing a request to the contract of its chain came out: the chain's contract,
/// or the unsupported-chain reply where the chain is not served.
pub open spec fn routed<'a, C, T>(
    contracts: &'a ContractRegistry<C>,
    chain_id: nat,
    r: Result<(&'a C, T), Reply>,
) -> bool {
    match r {
        Ok((c, _)) => serves(contracts, chain_id) && *c == contracts.view()[chain_id as u64],
        Err(reply) => !serves(contracts, chain_id) && reply@ == unsupported_chain_reply(chain_id),
    }
}

fn text(s: &str) -> (r: String)
    ensures
        r@ == s@,
{
    s.to_owned()
}

fn joined(a: &str, b: &str) -> (r: String)
    ensures
        r@ == a@ + b@,
{
    let mut r = a.to_owned();
    r.append(b);
    r
}

fn make_error_reply(status: HttpStatus, message: String) -> (r: Reply)
    ensures
        r@ == error_reply(status, message@),
{
    Reply {
        http_status: status,
        body: ApiResponse { status: text("error"), tx_hash: None, message, data: None },
    }
}

fn make_success_reply(tx_hash: Option<String>, message: String, data: Option<ResponseData>) -> (r:
    Reply)
    ensures
        r@ == success_reply(
            match tx_hash {
                Some(h) => Some(h@),
                None => None,
            },
            message@,
            match data {
                Some(d) => Some(d@),
                None => None,
            },
        ),
{
    Reply {
        http_status: HttpStatus::Success,
        body: ApiResponse { status: text("success"), tx_hash, message, data },
    }
}

/// The reply to a request for a chain the service does not serve.
pub fn unsupported_chain(chain_id: &Uint256) -> (r: Reply)
    ensures
        r@ == unsupported_chain_reply(chain_id@),
{
    let digits = chain_id.to_decimal();
    make_error_reply(HttpStatus::BadRequest, joined("Unsupported chain ID: ", digits.as_str()))
}

fn route<'a, C>(contracts: &'a ContractRegistry<C>, chain_id: &Uint256) -> (r: Result<&'a C, Reply>)
    ensures
        match r {
            Ok(c) => serves(contracts, chain_id@) && *c == contracts.view()[chain_id@ as u64],
            Err(reply) => !serves(contracts, chain_id@) && reply@ == unsupported_chain_reply(
                chain_id@,
            ),
        },
{
    match contracts.get(chain_id) {
        Some(c) => Ok(c),
        None => Err(unsupported_chain(chain_id)),
    }
}

/// Sign-up: the `signUp()` call from the user's address, on the contract of the chain.
pub fn sign_up<'a, C>(contracts: &'a ContractRegistry<C>, user: &UserAction) -> (r: Result<
    (&'a C, ContractCall),
    Reply,
>)
    ensures
        routed(contracts, user.chain_id@, r),
        r matches Ok((_, call)) ==> call == (ContractCall::SignUp { from: user.address }),
{
    let c = route(contracts, &user.chain_id)?;
    Ok((c, ContractCall::SignUp { from: user.address }))
}

/// Deposit: the payable `deposit()` call from the user's address with the amount attached.
pub fn deposit<'a, C>(contracts: &'a ContractRegistry<C>, request: &Deposit) -> (r: Result<
    (&'a C, ContractCall),
    Reply,
>)
    ensures
        routed(contracts, request.chain_id@, r),
        r matches Ok((_, call)) ==> call == (ContractCall::Deposit {
            from: request.address,
            value: request.amount,
        }),
{
    let c = route(contracts, &request.chain_id)?;
    Ok((c, ContractCall::Deposit { from: request.address, value: request.amount }))
}

/// Withdrawal: the `requestWithdrawal(shares)` call from the user's address.
pub fn withdraw<'a, C>(contracts: &'a ContractRegistry<C>, request: &Withdraw) -> (r: Result<
    (&'a C, ContractCall),
    Reply,
>)
    ensures
        routed(contracts, request.chain_id@, r),
        r matches Ok((_, call)) ==> call == (ContractCall::RequestWithdrawal {
            from: request.address,
            shares: request.shares,
        }),
{
    let c = route(contracts, &request.chain_id)?;
    Ok((c, ContractCall::RequestWithdrawal { from: request.address, shares: request.shares }))
}

/// Share lookup: the `shares(user)` query.
pub fn get_shares<'a, C>(contracts: &'a ContractRegistry<C>, user: &UserAction) -> (r: Result<
    (&'a C, ContractCall),
    Reply,
>)
    ensures
        routed(contracts, user.chain_id@, r),
        r matches Ok((_, call)) ==> call == (ContractCall::Shares { user: user.address }),
{
    let c = route(contracts, &user.chain_id)?;
    Ok((c, ContractCall::Shares { user: user.address }))
}

/// How a blob update request is decided against the handled ids: the `blobUpdate` call on
/// the chain's contract with the id to record, the unsupported-chain reply, or, where the
/// id was handled before, the already-processed reply.
pub open spec fn blob_update_decided<'a, C>(
    contracts: &'a ContractRegistry<C>,
    handled: Set<Seq<char>>,
    blob: &BlobUpdate,
    r: Result<(&'a C, ContractCall, String), Reply>,
) -> bool {
    match r {
        Ok((c, call, id)) => {
            &&& serves(contracts, blob.chain_id@)
            &&& *c == contracts.view()[blob.chain_id@ as u64]
            &&& id@ == blob_event_id(blob.chain_id@, blob.blob@)
            &&& !handled.contains(id@)
            &&& (call matches ContractCall::BlobUpdate { blob: b } && b@ == blob.blob@)
        },
        Err(reply) => {
            ||| (!serves(contracts, blob.chain_id@) && reply@ == unsupported_chain_reply(
                blob.chain_id@,
            ))
            ||| (serves(contracts, blob.chain_id@) && handled.contains(
                blob_event_id(blob.chain_id@, blob.blob@),
            ) && reply@ == already_processed_reply())
        },
    }
}

/// Blob update: the `blobUpdate(blob)` call, unless a blob update with the same id was
/// handled before; the id is returned for recording once the call succeeds.
pub fn update_shares<'a, C>(
    contracts: &'a ContractRegistry<C>,
    processed: &ProcessedEvents,
    blob: &BlobUpdate,
) -> (r: Result<(&'a C, ContractCall, String), Reply>)
    ensures
        blob_update_decided(contracts, processed.view(), blob, r),
{
    let c = route(contracts, &blob.chain_id)?;
    let digits = blob.chain_id.to_decimal();
    let mut id = joined("blob_update_", digits.as_str());
    id.append("_");
    id.append(blob.blob.as_str());
    if processed.contains(&id) {
        return Err(
            make_error_reply(HttpStatus::BadRequest, text("Blob update already processed")),
        );
    }
    Ok((c, ContractCall::BlobUpdate { blob: blob.blob.clone() }, id))
}

/// The reply once a transaction-sending call has returned: its hash, or the error.
pub fn transaction_reply(op: Operation, outcome: Result<TxHash, String>) -> (r: Reply)
    ensures
        match outcome {
            Ok(h) => r@ == success_reply(Some(full_hex_text(h.bytes@)), success_message(op), None),
            Err(e) => r@ == error_reply(
                HttpStatus::InternalServerError,
                failure_prefix(op) + e@,
            ),
        },
{
    match outcome {
        Ok(h) => {
            let message = match op {
                Operation::SignUp => text("User signed up successfully"),
                Operation::Deposit => text("Deposit successful"),
                Operation::Withdraw => text("Withdrawal request successful"),
                Operation::BlobUpdate => text("Blob update processed successfully"),
            };
            make_success_reply(Some(h.to_full_text()), message, None)
        },
        Err(e) => {
            let prefix = match op {
                Operation::SignUp => "Error signing up: ",
                Operation::Deposit => "Error depositing: ",
                Operation::Withdraw => "Error requesting withdrawal: ",
                Operation::BlobUpdate => "Error processing blob update: ",
            };
            make_error_reply(HttpStatus::InternalServerError, joined(prefix, e.as_str()))
        },
    }
}

/// The reply once a blob update call has returned; a successful update is recorded as
/// handled under its id.
pub fn finish_blob_update(
    processed: &mut ProcessedEvents,
    event_id: String,
    outcome: Result<TxHash, String>,
) -> (r: Reply)
    ensures
        match outcome {
            Ok(h) => {
                &&& final(processed).view() == old(processed).view().insert(event_id@)
                &&& r@ == success_reply(
                    Some(full_hex_text(h.bytes@)),
                    success_message(Operation::BlobUpdate),
                    None,
                )
            },
            Err(e) => {
                &&& final(processed).view() == old(processed).view()
                &&& r@ == error_reply(
                    HttpStatus::InternalServerError,
                    failure_prefix(Operation::BlobUpdate) + e@,
                )
            },
        },
{
    if outcome.is_ok() {
        processed.insert(event_id);
    }
    transaction_reply(Operation::BlobUpdate, outcome)
}

/// The reply to a share lookup once the query has returned.
pub fn shares_reply(outcome: Result<Uint256, String>) -> (r: Reply)
    ensures
        match outcome {
            Ok(s) => r@ == success_reply(
                None,
                "Shares retrieved successfully"@,
                Some(ResponseDataView::Shares(s@)),
            ),
            Err(e) => r@ == error_reply(
                HttpStatus::InternalServerError,
                "Error getting shares: "@ + e@,
            ),
        },
{
    match outcome {
        Ok(s) => make_success_reply(
            None,
            text("Shares retrieved successfully"),
            Some(ResponseData::Shares(s)),
        ),
        Err(e) => make_error_reply(
            HttpStatus::InternalServerError,
            joined("Error getting shares: ", e.as_str()),
        ),
    }
}

/// The reply to the RPC connectivity test once the block number query has returned.
pub fn test_rpc_reply(outcome: Result<u64, String>) -> (r: Reply)
    ensures
        match outcome {
            Ok(b) => r@ == success_reply(
                None,
                "Block number retrieved successfully"@,
                Some(ResponseDataView::BlockNumber("0x"@ + hex_text(b as nat))),
            ),
            Err(e) => r@ == error_reply(
                HttpStatus::InternalServerError,
                "Failed to get block number: "@ + e@,
            ),
        },
{
    match outcome {
        Ok(b) => {
            let digits = lower_hex_u64(b);
            make_success_reply(
                None,
                text("Block number retrieved successfully"),
                Some(ResponseData::BlockNumber(joined("0x", digits.as_str()))),
            )
        },
        Err(e) => make_error_reply(
            HttpStatus::InternalServerError,
            joined("Failed to get block number: ", e.as_str()),
        ),
    }
}

/// A blob update is accepted at most once: once its id is recorded as handled (as a
/// successful update records it), the same update is refused, on a served chain with
/// "Blob update already processed".
pub proof fn lemma_blob_update_once<'a, C>(
    contracts: &'a ContractRegistry<C>,
    handled: Set<Seq<char>>,
    blob: &BlobUpdate,
    r: Result<(&'a C, ContractCall, String), Reply>,
)
    requires
        blob_update_decided(
            contracts,
            handled.insert(blob_event_id(blob.chain_id@, blob.blob@)),
            blob,
            r,
        ),
    ensures
        r is Err,
        serves(contracts, blob.chain_id@) ==> r->Err_0@ == already_processed_reply(),
{
}

/// The id of a blob update holds the whole blob: on one chain, two different blobs never
/// share an id, however long they are and however much they have in common.
pub proof fn lemma_blob_ids_differ(chain_id: nat, first: Seq<char>, second: Seq<char>)
    requires
        first != second,
    ensures
        blob_event_id(chain_id, first) != blob_event_id(chain_id, second),
{
    let prefix = "blob_update_"@ + decimal_text(chain_id) + "_"@;
    let a = blob_event_id(chain_id, first);
    let b = blob_event_id(chain_id, second);
    assert(a == prefix + first);
    assert(b == prefix + second);
    assert(a.subrange(prefix.len() as int, a.len() as int) =~= first);
    assert(b.subrange(prefix.len() as int, b.len() as int) =~= second);
}

/// Recording one blob update never refuses another: after a successful update of one blob
/// on a served chain, a request with a different blob on that chain, not handled before, is
/// accepted and leads to the `blobUpdate` call for the new blob.
pub proof fn lemma_other_blob_still_accepted<'a, C>(
    contracts: &'a ContractRegistry<C>,
    handled: Set<Seq<char>>,
    first: &BlobUpdate,
    second: &BlobUpdate,
    r: Result<(&'a C, ContractCall, String), Reply>,
)
    requires
        blob_update_decided(
            contracts,
            handled.insert(blob_event_id(first.chain_id@, first.blob@)),
            second,
            r,
        ),
        first.chain_id@ == second.chain_id@,
        first.blob@ != second.blob@,
        !handled.contains(blob_event_id(second.chain_id@, second.blob@)),
        serves(contracts, second.chain_id@),
    ensures
        r is Ok,
        r matches Ok((_, call, _)) ==> (call matches ContractCall::BlobUpdate { blob: b } && b@
            == second.blob@),
{
    lemma_blob_ids_differ(first.chain_id@, first.blob@, second.blob@);
}

} // verus!
