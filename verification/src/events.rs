//! Contract events and what the service writes down for them: event records, their ids,
//! the files they are saved in, and the moving of saved files.
use vstd::prelude::*;
use crate::eth::{EthAddress, TxHash, Uint256, address_short_text, full_hex_text};
use crate::text::{
    byte_written_at, decimal_i64, decimal_u64, decimal_text, hex_bytes, lemma_hex_bytes_positions, lookup_pair,
    pair_lookup, signed_decimal_text,
};

verus! {

/// `WithdrawalRequested(user, sharesWithdrawn, tokenAmount)`.
#[derive(Clone, Copy, Debug)]
pub struct WithdrawalRequested {
    pub user: EthAddress,
    pub shares_withdrawn: Uint256,
    pub token_amount: Uint256,
}

/// `SharesUpdated(user, newShares, chainId)`.
#[derive(Clone, Copy, Debug)]
pub struct SharesUpdated {
    pub user: EthAddress,
    pub new_shares: Uint256,
    pub chain_id: Uint256,
}

/// `UserSignedUp(user, chainId)`.
#[derive(Clone, Copy, Debug)]
pub struct UserSignedUp {
    pub user: EthAddress,
    pub chain_id: Uint256,
}

/// `Deposit(user, amount, newShares, chainId)`.
#[derive(Clone, Copy, Debug)]
pub struct DepositMade {
    pub user: EthAddress,
    pub amount: Uint256,
    pub new_shares: Uint256,
    pub chain_id: Uint256,
}

/// A record of an event as saved to disk: named text fields, in order.
pub struct EventRecord {
    pub fields: Vec<(String, String)>,
}

impl View for EventRecord {
    type V = Seq<(Seq<char>, Seq<char>)>;

    open spec fn view(&self) -> Seq<(Seq<char>, Seq<char>)> {
        self.fields@.map_values(|p: (String, String)| (p.0@, p.1@))
    }
}

/// The record of a `SharesUpdated` event seen on chain `chain_id`.
pub open spec fn shares_updated_fields(chain_id: nat, e: SharesUpdated) -> Seq<(Seq<char>, Seq<char>)> {
    seq![
        ("event_type"@, "SharesUpdated"@),
        ("chain_id"@, decimal_text(chain_id)),
        ("user"@, full_hex_text(e.user.bytes@)),
        ("new_shares"@, decimal_text(e.new_shares@)),
        ("contract_chain_id"@, decimal_text(e.chain_id@)),
    ]
}

/// The record of a `UserSignedUp` event seen on chain `chain_id`.
pub open spec fn user_signed_up_fields(chain_id: nat, e: UserSignedUp) -> Seq<(Seq<char>, Seq<char>)> {
    seq![
        ("event_type"@, "UserSignedUp"@),
        ("chain_id"@, decimal_text(chain_id)),
        ("user"@, full_hex_text(e.user.bytes@)),
        ("contract_chain_id"@, decimal_text(e.chain_id@)),
    ]
}

/// The record of a `Deposit` event seen on chain `chain_id`.
pub open spec fn deposit_fields(chain_id: nat, e: DepositMade) -> Seq<(Seq<char>, Seq<char>)> {
    seq![
        ("event_type"@, "Deposit"@),
        ("chain_id"@, decimal_text(chain_id)),
        ("user"@, full_hex_text(e.user.bytes@)),
        ("amount"@, decimal_text(e.amount@)),
        ("new_shares"@, decimal_text(e.new_shares@)),
        ("contract_chain_id"@, decimal_text(e.chain_id@)),
    ]
}

/// The record of a withdrawal paid out on chain `chain_id` by transaction `tx_hash`,
/// mined in block `block_number`.
pub open spec fn withdrawal_processed_fields(
    chain_id: nat,
    e: WithdrawalRequested,
    tx_hash: TxHash,
    block_number: nat,
) -> Seq<(Seq<char>, Seq<char>)> {
    seq![
        ("event_type"@, "WithdrawalProcessed"@),
        ("chain_id"@, decimal_text(chain_id)),
        ("user"@, full_hex_text(e.user.bytes@)),
        ("shares_withdrawn"@, decimal_text(e.shares_withdrawn@)),
        ("token_amount"@, decimal_text(e.token_amount@)),
        ("tx_hash"@, full_hex_text(tx_hash.bytes@)),
        ("block_number"@, decimal_text(block_number)),
    ]
}

/// The id under which a withdrawal request is remembered once paid out; the user appears
/// in its short form.
pub open spec fn withdrawal_event_id_text(chain_id: nat, e: WithdrawalRequested) -> Seq<char> {
    "withdrawal_"@ + decimal_text(chain_id) + "_"@ + address_short_text(e.user.bytes@) + "_"@
        + decimal_text(e.shares_withdrawn@) + "_"@ + decimal_text(e.token_amount@)
}

fn add_field(fields: &mut Vec<(String, String)>, name: &str, value: String)
    ensures
        final(fields)@.map_values(|p: (String, String)| (p.0@, p.1@)) == old(fields)@.map_values(
            |p: (String, String)| (p.0@, p.1@),
        ).push((name@, value@)),
{
    fields.push((name.to_owned(), value));
    assert(final(fields)@.map_values(|p: (String, String)| (p.0@, p.1@)) =~= old(fields)@.map_values(
        |p: (String, String)| (p.0@, p.1@),
    ).push((name@, value@)));
}

/// The record of a `SharesUpdated` event seen on a chain.
pub fn shares_updated_record(chain_id: &Uint256, e: &SharesUpdated) -> (r: EventRecord)
    ensures
        r@ == shares_updated_fields(chain_id@, *e),
{
    let mut fields: Vec<(String, String)> = Vec::new();
    add_field(&mut fields, "event_type", "SharesUpdated".to_owned());
    add_field(&mut fields, "chain_id", chain_id.to_decimal());
    add_field(&mut fields, "user", e.user.to_full_text());
    add_field(&mut fields, "new_shares", e.new_shares.to_decimal());
    add_field(&mut fields, "contract_chain_id", e.chain_id.to_decimal());
    let r = EventRecord { fields };
    assert(r@ =~= shares_updated_fields(chain_id@, *e));
    r
}

/// The record of a `UserSignedUp` event seen on a chain.
pub fn user_signed_up_record(chain_id: &Uint256, e: &UserSignedUp) -> (r: EventRecord)
    ensures
        r@ == user_signed_up_fields(chain_id@, *e),
{
    let mut fields: Vec<(String, String)> = Vec::new();
    add_field(&mut fields, "event_type", "UserSignedUp".to_owned());
    add_field(&mut fields, "chain_id", chain_id.to_decimal());
    add_field(&mut fields, "user", e.user.to_full_text());
    add_field(&mut fields, "contract_chain_id", e.chain_id.to_decimal());
    let r = EventRecord { fields };
    assert(r@ =~= user_signed_up_fields(chain_id@, *e));
    r
}

/// The record of a `Deposit` event seen on a chain.
pub fn deposit_record(chain_id: &Uint256, e: &DepositMade) -> (r: EventRecord)
    ensures
        r@ == deposit_fields(chain_id@, *e),
{
    let mut fields: Vec<(String, String)> = Vec::new();
    add_field(&mut fields, "event_type", "Deposit".to_owned());
    add_field(&mut fields, "chain_id", chain_id.to_decimal());
    add_field(&mut fields, "user", e.user.to_full_text());
    add_field(&mut fields, "amount", e.amount.to_decimal());
    add_field(&mut fields, "new_shares", e.new_shares.to_decimal());
    add_field(&mut fields, "contract_chain_id", e.chain_id.to_decimal());
    let r = EventRecord { fields };
    assert(r@ =~= deposit_fields(chain_id@, *e));
    r
}

/// The record of a withdrawal paid out by a mined transaction.
pub fn withdrawal_processed_record(
    chain_id: &Uint256,
    e: &WithdrawalRequested,
    tx_hash: &TxHash,
    block_number: u64,
) -> (r: EventRecord)
    ensures
        r@ == withdrawal_processed_fields(chain_id@, *e, *tx_hash, block_number as nat),
{
    let mut fields: Vec<(String, String)> = Vec::new();
    add_field(&mut fields, "event_type", "WithdrawalProcessed".to_owned());
    add_field(&mut fields, "chain_id", chain_id.to_decimal());
    add_field(&mut fields, "user", e.user.to_full_text());
    add_field(&mut fields, "shares_withdrawn", e.shares_withdrawn.to_decimal());
    add_field(&mut fields, "token_amount", e.token_amount.to_decimal());
    add_field(&mut fields, "tx_hash", tx_hash.to_full_text());
    add_field(&mut fields, "block_number", decimal_u64(block_number));
    let r = EventRecord { fields };
    assert(r@ =~= withdrawal_processed_fields(chain_id@, *e, *tx_hash, block_number as nat));
    r
}

/// The `tx_hash` field of a processed-withdrawal record is the sent transaction's hash in
/// full, as its `Debug` writes it: `0x` and then, for each of the 32 bytes in order, its two
/// lowercase hex digits, byte `i` at characters `2 + 2i` and `3 + 2i`.
pub proof fn lemma_withdrawal_record_shows_its_hash(
    chain_id: nat,
    e: WithdrawalRequested,
    tx_hash: TxHash,
    block_number: nat,
)
    ensures
        ({
            let t = field_or_unknown(
                withdrawal_processed_fields(chain_id, e, tx_hash, block_number),
                "tx_hash"@,
            );
            &&& t == full_hex_text(tx_hash.bytes@)
            &&& t.len() == 66
            &&& t[0] == '0' && t[1] == 'x'
            &&& forall|i: int|
                0 <= i < 32 ==> #[trigger] byte_written_at(t.subrange(2, 66), tx_hash.bytes@, i)
        }),
{
    reveal_strlit("tx_hash");
    reveal_strlit("event_type");
    reveal_strlit("chain_id");
    reveal_strlit("user");
    reveal_strlit("shares_withdrawn");
    reveal_strlit("token_amount");
    let f = withdrawal_processed_fields(chain_id, e, tx_hash, block_number);
    let f1 = f.drop_first();
    let f2 = f1.drop_first();
    let f3 = f2.drop_first();
    let f4 = f3.drop_first();
    let f5 = f4.drop_first();
    assert(f[0].0 == "event_type"@);
    assert("event_type"@.len() != "tx_hash"@.len());
    assert(f[0].0 != "tx_hash"@);
    assert(f1[0].0 == "chain_id"@);
    assert("chain_id"@.len() != "tx_hash"@.len());
    assert(f1[0].0 != "tx_hash"@);
    assert(f2[0].0 != "tx_hash"@);
    assert(f3[0].0 != "tx_hash"@);
    assert(f4[0].0 != "tx_hash"@);
    assert(f5[0] == ("tx_hash"@, full_hex_text(tx_hash.bytes@)));
    let n = "tx_hash"@;
    assert(field_or_unknown(f5, n) == full_hex_text(tx_hash.bytes@));
    assert(field_or_unknown(f4, n) == field_or_unknown(f5, n));
    assert(field_or_unknown(f3, n) == field_or_unknown(f4, n));
    assert(field_or_unknown(f2, n) == field_or_unknown(f3, n));
    assert(field_or_unknown(f1, n) == field_or_unknown(f2, n));
    assert(field_or_unknown(f, n) == field_or_unknown(f1, n));
    let t = full_hex_text(tx_hash.bytes@);
    lemma_hex_bytes_positions(tx_hash.bytes@);
    assert(tx_hash.bytes@.len() == 32);
    assert(t[0] == '0' && t[1] == 'x');
    assert(t.subrange(2, 66) =~= hex_bytes(tx_hash.bytes@));
}

/// The id under which a withdrawal request is remembered once paid out.
pub fn withdrawal_event_id(chain_id: &Uint256, e: &WithdrawalRequested) -> (id: String)
    ensures
        id@ == withdrawal_event_id_text(chain_id@, *e),
{
    let mut id = "withdrawal_".to_owned();
    id.append(chain_id.to_decimal().as_str());
    id.append("_");
    id.append(e.user.to_short_text().as_str());
    id.append("_");
    id.append(e.shares_withdrawn.to_decimal().as_str());
    id.append("_");
    id.append(e.token_amount.to_decimal().as_str());
    id
}

/// A field of a record, or `unknown` where the record has no such field.
pub open spec fn field_or_unknown(fields: Seq<(Seq<char>, Seq<char>)>, name: Seq<char>) -> Seq<char>
    decreases fields.len(),
{
    if fields.len() == 0 {
        "unknown"@
    } else if fields[0].0 == name {
        fields[0].1
    } else {
        field_or_unknown(fields.drop_first(), name)
    }
}

proof fn lemma_field_lookup(pairs: Seq<(String, String)>, name: Seq<char>)
    ensures
        field_or_unknown(pairs.map_values(|p: (String, String)| (p.0@, p.1@)), name) == match pair_lookup(pairs, name) {
            Some(v) => v,
            None => "unknown"@,
        },
    decreases pairs.len(),
{
    let views = pairs.map_values(|p: (String, String)| (p.0@, p.1@));
    if pairs.len() > 0 {
        assert(views.drop_first() =~= pairs.drop_first().map_values(|p: (String, String)| (p.0@, p.1@)));
        lemma_field_lookup(pairs.drop_first(), name);
    }
}

/// The name of the file a record is saved in, given the time in milliseconds and a
/// random number: `event_<type>_<user>_<millis>_<random>.json`.
pub open spec fn event_file_name_text(
    record: Seq<(Seq<char>, Seq<char>)>,
    timestamp_millis: int,
    nonce: nat,
) -> Seq<char> {
    "event_"@ + field_or_unknown(record, "event_type"@) + "_"@ + field_or_unknown(record, "user"@)
        + "_"@ + signed_decimal_text(timestamp_millis) + "_"@ + decimal_text(nonce) + ".json"@
}

fn field_text(record: &EventRecord, name: &str) -> (r: String)
    ensures
        r@ == field_or_unknown(record@, name@),
{
    proof {
        lemma_field_lookup(record.fields@, name@);
    }
    match lookup_pair(&record.fields, name) {
        Some(v) => v,
        None => "unknown".to_owned(),
    }
}

/// The name of the file a record is saved in, for a given time and random number.
pub fn event_file_name(record: &EventRecord, timestamp_millis: i64, nonce: u64) -> (r: String)
    ensures
        r@ == event_file_name_text(record@, timestamp_millis as int, nonce as nat),
{
    let mut r = "event_".to_owned();
    r.append(field_text(record, "event_type").as_str());
    r.append("_");
    r.append(field_text(record, "user").as_str());
    r.append("_");
    r.append(decimal_i64(timestamp_millis).as_str());
    r.append("_");
    r.append(decimal_u64(nonce).as_str());
    r.append(".json");
    r
}

/// fastrand's `u64(..)`: a random 64-bit number. Nothing is stated of the value.
#[verifier::external_body]
fn random_u64() -> (n: u64) {
    fastrand::u64(..)
}

/// The name of the file a record is saved in at the given time (milliseconds since the
/// epoch), with a fresh random number.
pub fn new_event_file_name(record: &EventRecord, timestamp_millis: i64) -> (r: String)
    ensures
        exists|n: u64| r@ == event_file_name_text(record@, timestamp_millis as int, n as nat),
{
    let n = random_u64();
    event_file_name(record, timestamp_millis, n)
}

/// The directory under which event files are kept.
pub const EVENT_ROOT_DIR: &'static str = "deposit-graph";

/// The directory, under [`EVENT_ROOT_DIR`], that new event files are written to.
pub const NEW_EVENTS_DIR: &'static str = "events";

/// The directory, under [`EVENT_ROOT_DIR`], that written event files are moved to.
pub const FINISHED_EVENTS_DIR: &'static str = "events-finished";

/// How many times moving an event file is tried.
pub const MOVE_ATTEMPTS: u32 = 5;

/// What to do after trying to move an event file.
#[derive(Clone, Copy, Debug, PartialEq, Eq, Structural)]
pub enum MoveStep {
    /// The file was moved.
    Moved,
    /// The move failed: pause, then try again.
    PauseThenRetry,
    /// The move failed for the last time: pause, then give up (which is not an error).
    PauseThenGiveUp,
}

/// The attempts at moving one event file into the finished directory.
pub struct MoveRetry {
    pub attempts: u32,
}

impl MoveRetry {
    /// No attempt made yet.
    pub fn new() -> (r: MoveRetry)
        ensures
            r.attempts == 0,
    {
        MoveRetry { attempts: 0 }
    }

    /// Records the outcome of an attempt and says what follows.
    pub fn after_attempt(&mut self, moved: bool) -> (step: MoveStep)
        requires
            old(self).attempts < MOVE_ATTEMPTS,
        ensures
            final(self).attempts == old(self).attempts + 1,
            moved ==> step == MoveStep::Moved,
            !moved && final(self).attempts < MOVE_ATTEMPTS ==> step == MoveStep::PauseThenRetry,
            !moved && final(self).attempts == MOVE_ATTEMPTS ==> step == MoveStep::PauseThenGiveUp,
    {
        self.attempts = self.attempts + 1;
        if moved {
            MoveStep::Moved
        } else if self.attempts < MOVE_ATTEMPTS {
            MoveStep::PauseThenRetry
        } else {
            MoveStep::PauseThenGiveUp
        }
    }
}

/// A chain answered with another chain id than the one it is configured for.
pub struct ChainIdMismatch {
    pub expected: u64,
    pub got: Uint256,
}

impl ChainIdMismatch {
    /// `Chain ID mismatch. Expected: <expected>, Got: <got>`.
    pub fn message(&self) -> (s: String)
        ensures
            s@ == "Chain ID mismatch. Expected: "@ + decimal_text(self.expected as nat) + ", Got: "@
                + decimal_text(self.got@),
    {
        let mut s = "Chain ID mismatch. Expected: ".to_owned();
        s.append(decimal_u64(self.expected).as_str());
        s.append(", Got: ");
        s.append(self.got.to_decimal().as_str());
        s
    }
}

/// Checks the chain id an RPC endpoint reports against the one expected. The reported id
/// is read as a 64-bit integer, which fails (panics) for larger values.
pub fn verify_chain_id(reported: &Uint256, expected: u64) -> (r: Result<(), ChainIdMismatch>)
    requires
        reported@ <= u64::MAX,
    ensures
        r is Ok <==> reported@ == expected as nat,
        r matches Err(e) ==> e.expected == expected && e.got == *reported,
{
    if reported.as_u64() != expected {
        return Err(ChainIdMismatch { expected, got: *reported });
    }
    Ok(())
}

} // verus!
