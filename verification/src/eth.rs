//! Ethereum values held as plain data: 256-bit integers, addresses and transaction hashes,
//! with the arithmetic and renderings that ethers provides for them.
use vstd::prelude::*;
use vstd::utf8::encode_utf8;
use crate::text::{decimal_text, hex_bytes, hex_digit, push_char, starts_with_text};

verus! {

/// 2^64, the weight of the second 64-bit word.
pub open spec fn word_weight_1() -> nat {
    18446744073709551616nat
}

/// 2^128, the weight of the third 64-bit word.
pub open spec fn word_weight_2() -> nat {
    340282366920938463463374607431768211456nat
}

/// 2^192, the weight of the fourth 64-bit word.
pub open spec fn word_weight_3() -> nat {
    6277101735386680763835789423207666416102355444464034512896nat
}

/// The largest value a 256-bit unsigned integer holds: 2^256 - 1.
pub open spec fn u256_max() -> nat {
    115792089237316195423570985008687907853269984665640564039457584007913129639935nat
}

/// A 256-bit unsigned integer as four 64-bit words, least significant first
/// (the layout of ethers' `U256`).
#[derive(Clone, Copy, Debug)]
pub struct Uint256 {
    pub limbs: [u64; 4],
}

impl View for Uint256 {
    type V = nat;

    open spec fn view(&self) -> nat {
        (self.limbs[0] as nat) + (self.limbs[1] as nat) * word_weight_1() + (self.limbs[2] as nat)
            * word_weight_2() + (self.limbs[3] as nat) * word_weight_3()
    }
}

impl Uint256 {
    /// The value of a 64-bit integer.
    pub fn from_u64(x: u64) -> (r: Uint256)
        ensures
            r@ == x as nat,
    {
        Uint256 { limbs: [x, 0, 0, 0] }
    }

    /// Whether the value fits in 64 bits.
    pub fn fits_u64(&self) -> (b: bool)
        ensures
            b == (self@ <= u64::MAX as nat),
    {
        self.limbs[1] == 0 && self.limbs[2] == 0 && self.limbs[3] == 0
    }

    /// The value as a 64-bit integer (ethers' `U256::as_u64`, which panics on larger values).
    pub fn as_u64(&self) -> (r: u64)
        requires
            self@ <= u64::MAX as nat,
        ensures
            r as nat == self@,
    {
        self.limbs[0]
    }

    /// The decimal rendering that `Display` writes for ethers' `U256`.
    pub fn to_decimal(&self) -> (s: String)
        ensures
            s@ == decimal_text(self@),
    {
        u256_to_decimal(self)
    }
}

/// `a * b`, or `u256_max()` where the product does not fit.
pub open spec fn saturating_product(a: nat, b: nat) -> nat {
    if a * b <= u256_max() {
        a * b
    } else {
        u256_max()
    }
}

/// ethers' `U256::saturating_mul`: the product, or the largest value where it overflows.
#[verifier::external_body]
pub(crate) fn u256_saturating_mul(a: &Uint256, b: &Uint256) -> (r: Uint256)
    ensures
        r@ == saturating_product(a@, b@),
{
    Uint256 {
        limbs: ethers::types::U256(a.limbs).saturating_mul(ethers::types::U256(b.limbs)).0,
    }
}

/// ethers' `U256` division (`Div`), which rounds down and panics on a zero divisor.
#[verifier::external_body]
pub(crate) fn u256_div(a: &Uint256, b: &Uint256) -> (r: Uint256)
    requires
        b@ != 0,
    ensures
        r@ == a@ / b@,
{
    Uint256 { limbs: (ethers::types::U256(a.limbs) / ethers::types::U256(b.limbs)).0 }
}

/// `Display` of ethers' `U256`: the decimal digits of the value.
#[verifier::external_body]
pub(crate) fn u256_to_decimal(a: &Uint256) -> (s: String)
    ensures
        s@ == decimal_text(a@),
{
    format!("{}", ethers::types::U256(a.limbs))
}

/// A 20-byte Ethereum account address.
#[derive(Clone, Copy, Debug)]
pub struct EthAddress {
    pub bytes: [u8; 20],
}

/// A 32-byte transaction hash.
#[derive(Clone, Copy, Debug)]
pub struct TxHash {
    pub bytes: [u8; 32],
}

/// The short form that `Display` writes for an address: `0x`, the first two bytes in hex,
/// an ellipsis, and the last two bytes in hex.
pub open spec fn address_short_text(bytes: Seq<u8>) -> Seq<char> {
    seq!['0', 'x'] + hex_bytes(bytes.subrange(0, 2)) + seq!['\u{2026}'] + hex_bytes(
        bytes.subrange(bytes.len() - 2, bytes.len() as int),
    )
}

/// The full form that `Debug` writes for a hash or address: `0x` and every byte in hex.
pub open spec fn full_hex_text(bytes: Seq<u8>) -> Seq<char> {
    seq!['0', 'x'] + hex_bytes(bytes)
}

/// Appends two lowercase hex digits for every byte.
fn append_hex(s: &mut String, bytes: &[u8])
    ensures
        final(s)@ == old(s)@ + hex_bytes(bytes@),
{
    let mut i: usize = 0;
    assert(bytes@.subrange(0, 0) =~= Seq::<u8>::empty());
    while i < bytes.len()
        invariant
            i <= bytes@.len(),
            s@ == old(s)@ + hex_bytes(bytes@.subrange(0, i as int)),
        decreases bytes@.len() - i,
    {
        let b = bytes[i];
        push_char(s, hex_digit((b / 16) as u64));
        push_char(s, hex_digit((b % 16) as u64));
        i += 1;
        assert(bytes@.subrange(0, i as int).drop_last() =~= bytes@.subrange(0, i - 1));
        assert(s@ =~= old(s)@ + hex_bytes(bytes@.subrange(0, i as int)));
    }
    assert(bytes@.subrange(0, i as int) =~= bytes@);
}

/// `0x` followed by two lowercase hex digits for every byte.
fn full_hex(bytes: &[u8]) -> (s: String)
    ensures
        s@ == full_hex_text(bytes@),
{
    let mut s = "0x".to_owned();
    proof {
        reveal_strlit("0x");
    }
    assert(s@ =~= seq!['0', 'x']);
    append_hex(&mut s, bytes);
    s
}

impl EthAddress {
    /// The short rendering that `Display` of ethers' `Address` writes.
    pub fn to_short_text(&self) -> (s: String)
        ensures
            s@ == address_short_text(self.bytes@),
    {
        let head: Vec<u8> = vec![self.bytes[0], self.bytes[1]];
        let tail: Vec<u8> = vec![self.bytes[18], self.bytes[19]];
        assert(head@ =~= self.bytes@.subrange(0, 2));
        assert(tail@ =~= self.bytes@.subrange(18, 20));
        let mut s = "0x".to_owned();
        proof {
            reveal_strlit("0x");
        }
        assert(s@ =~= seq!['0', 'x']);
        append_hex(&mut s, head.as_slice());
        push_char(&mut s, '\u{2026}');
        append_hex(&mut s, tail.as_slice());
        s
    }

    /// The full rendering that `Debug` of ethers' `Address` writes.
    pub fn to_full_text(&self) -> (s: String)
        ensures
            s@ == full_hex_text(self.bytes@),
    {
        full_hex(self.bytes.as_slice())
    }
}

impl TxHash {
    /// The full rendering that `Debug` of ethers' `H256` writes.
    pub fn to_full_text(&self) -> (s: String)
        ensures
            s@ == full_hex_text(self.bytes@),
    {
        full_hex(self.bytes.as_slice())
    }
}

/// A character that hex decoding of addresses skips.
pub open spec fn is_hex_space(c: char) -> bool {
    c == ' ' || c == '\r' || c == '\n' || c == '\t'
}

/// A hexadecimal digit, in either case.
pub open spec fn is_hex_char(c: char) -> bool {
    ('0' <= c && c <= '9') || ('a' <= c && c <= 'f') || ('A' <= c && c <= 'F')
}

/// The value of a hexadecimal digit.
pub open spec fn hex_char_value(c: char) -> nat {
    if '0' <= c && c <= '9' {
        (c as nat - 48) as nat
    } else if 'a' <= c && c <= 'f' {
        (c as nat - 87) as nat
    } else {
        (c as nat - 55) as nat
    }
}

/// The text after an optional leading `0x`.
pub open spec fn without_hex_prefix(s: Seq<char>) -> Seq<char> {
    if starts_with_text(s, seq!['0', 'x']) {
        s.subrange(2, s.len() as int)
    } else {
        s
    }
}

/// The hex digits that address parsing reads: the text without `0x` and without skipped spaces.
pub open spec fn address_digits(s: Seq<char>) -> Seq<char> {
    without_hex_prefix(s).filter(|c: char| !is_hex_space(c))
}

/// What `Address::from_str` gives: twenty bytes from exactly forty hex digits, or nothing.
pub open spec fn parsed_address(s: Seq<char>) -> Option<Seq<u8>> {
    let d = address_digits(s);
    if d.len() == 40 && (forall|i: int| 0 <= i < 40 ==> is_hex_char(#[trigger] d[i])) {
        Some(
            Seq::new(
                20,
                |i: int| (hex_char_value(d[2 * i]) * 16 + hex_char_value(d[2 * i + 1])) as u8,
            ),
        )
    } else {
        None
    }
}

/// A character that address parsing rejects: neither a hex digit nor a skipped space.
pub open spec fn is_bad_address_char(c: char) -> bool {
    !is_hex_char(c) && !is_hex_space(c)
}

/// `p` is the position of the first rejected character of `d`.
pub open spec fn first_bad_address_char_at(d: Seq<char>, p: int) -> bool {
    &&& 0 <= p < d.len()
    &&& is_bad_address_char(d[p])
    &&& forall|k: int| 0 <= k < p ==> !is_bad_address_char(d[k])
}

/// The description of a rejected address text (rustc-hex's `FromHexError` display): the
/// first rejected character and its byte position after `0x`, where it comes before the
/// fortieth hex digit; otherwise `Invalid input length`.
pub open spec fn address_error_text(s: Seq<char>) -> Seq<char> {
    let d = without_hex_prefix(s);
    if exists|p: int|
        first_bad_address_char_at(d, p) && d.subrange(0, p).filter(|c: char| !is_hex_space(c)).len()
            < 40 {
        let p = choose|p: int| first_bad_address_char_at(d, p);
        "Invalid character '"@ + seq![d[p]] + "' at position "@ + decimal_text(
            encode_utf8(d.subrange(0, p)).len(),
        )
    } else {
        "Invalid input length"@
    }
}

/// ethers' `Address::from_str` (fixed-hash with rustc-hex): strips one leading `0x`, skips
/// spaces, tabs and line breaks, and reads exactly forty hex digits; the error is shown
/// with its `Display`.
#[verifier::external_body]
pub(crate) fn parse_address_text(s: &str) -> (r: Result<EthAddress, String>)
    ensures
        r is Ok <==> parsed_address(s@) is Some,
        r matches Ok(a) ==> Some(a.bytes@) == parsed_address(s@),
        r matches Err(e) ==> e@ == address_error_text(s@),
{
    match s.parse::<ethers::types::Address>() {
        Ok(a) => Ok(EthAddress { bytes: a.0 }),
        Err(e) => Err(format!("{}", e)),
    }
}

/// Parses an account address in the form ethers accepts; on failure, the parser's
/// description of the error.
pub fn parse_address(s: &str) -> (r: Result<EthAddress, String>)
    ensures
        r is Ok <==> parsed_address(s@) is Some,
        r matches Ok(a) ==> Some(a.bytes@) == parsed_address(s@),
        r matches Err(e) ==> e@ == address_error_text(s@),
{
    parse_address_text(s)
}


/// What ethers' `LocalWallet` makes of a private key text (hex, 32 bytes, a valid
/// secp256k1 scalar): the wallet's address, or the `Display` of the error.
pub uninterp spec fn wallet_key_outcome(key: Seq<char>) -> Result<Seq<u8>, Seq<char>>;

/// The address of the wallet a private key text gives, or nothing where it is rejected.
pub open spec fn wallet_key_address(key: Seq<char>) -> Option<Seq<u8>> {
    match wallet_key_outcome(key) {
        Ok(a) => Some(a),
        Err(_) => None,
    }
}

/// An address or an error text, taken by their views.
pub open spec fn address_result_view(r: Result<EthAddress, String>) -> Result<Seq<u8>, Seq<char>> {
    match r {
        Ok(a) => Ok(a.bytes@),
        Err(e) => Err(e@),
    }
}

/// Success or an error text, the text taken by its view.
pub open spec fn unit_result_view(r: Result<(), String>) -> Result<(), Seq<char>> {
    match r {
        Ok(()) => Ok(()),
        Err(e) => Err(e@),
    }
}

/// ethers' `LocalWallet::from_str`, then `Signer::address` of the wallet.
#[verifier::external_body]
pub(crate) fn wallet_address_for_key(key: &str) -> (r: Result<EthAddress, String>)
    ensures
        wallet_key_outcome(key@) == address_result_view(r),
{
    match key.parse::<ethers::signers::LocalWallet>() {
        Ok(w) => Ok(EthAddress { bytes: ethers::signers::Signer::address(&w).0 }),
        Err(e) => Err(format!("{}", e)),
    }
}

/// What ethers' HTTP provider makes of an RPC endpoint text (it parses it as a URL):
/// acceptance, or the `Display` of the parse error.
pub uninterp spec fn rpc_url_outcome(url: Seq<char>) -> Result<(), Seq<char>>;

/// Whether ethers' HTTP provider accepts an RPC endpoint text.
pub open spec fn rpc_url_accepted(url: Seq<char>) -> bool {
    rpc_url_outcome(url) is Ok
}

/// ethers' `Provider::<Http>::try_from(url)`.
#[verifier::external_body]
pub(crate) fn check_http_provider(url: &str) -> (r: Result<(), String>)
    ensures
        rpc_url_outcome(url@) == unit_result_view(r),
{
    match ethers::providers::Provider::<ethers::providers::Http>::try_from(url) {
        Ok(_) => Ok(()),
        Err(e) => Err(format!("{}", e)),
    }
}

} // verus!
