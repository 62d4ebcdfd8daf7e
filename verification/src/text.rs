//! Text building blocks: decimal and hexadecimal rendering, substring search.
use vstd::prelude::*;

verus! {

/// The character of a hexadecimal digit (lowercase letters); for `d < 10` a decimal digit.
pub open spec fn hex_digit_char(d: nat) -> char {
    if d < 10 {
        (d + 48) as char
    } else {
        (d + 87) as char
    }
}

/// Decimal rendering of a natural number, most significant digit first, without leading zeros.
pub open spec fn decimal_text(n: nat) -> Seq<char>
    decreases n,
{
    if n < 10 {
        seq![hex_digit_char(n)]
    } else {
        decimal_text(n / 10).push(hex_digit_char(n % 10))
    }
}

/// Decimal rendering of an integer, with a leading `-` for negative values.
pub open spec fn signed_decimal_text(i: int) -> Seq<char> {
    if i < 0 {
        seq!['-'] + decimal_text((-i) as nat)
    } else {
        decimal_text(i as nat)
    }
}

/// Lowercase hexadecimal rendering of a natural number, without leading zeros.
pub open spec fn hex_text(n: nat) -> Seq<char>
    decreases n,
{
    if n < 16 {
        seq![hex_digit_char(n)]
    } else {
        hex_text(n / 16).push(hex_digit_char(n % 16))
    }
}

/// Two lowercase hexadecimal digits for every byte, in order.
pub open spec fn hex_bytes(b: Seq<u8>) -> Seq<char>
    decreases b.len(),
{
    if b.len() == 0 {
        Seq::empty()
    } else {
        hex_bytes(b.drop_last()) + seq![
            hex_digit_char((b.last() / 16) as nat),
            hex_digit_char((b.last() % 16) as nat),
        ]
    }
}

/// `needle` occurs in `hay` starting at position `i`.
pub open spec fn occurs_at(hay: Seq<char>, needle: Seq<char>, i: int) -> bool {
    0 <= i && i + needle.len() <= hay.len() && hay.subrange(i, i + needle.len()) == needle
}

/// `needle` occurs somewhere in `hay`.
pub open spec fn contains_text(hay: Seq<char>, needle: Seq<char>) -> bool {
    exists|i: int| occurs_at(hay, needle, i)
}

/// `hay` begins with `prefix`.
pub open spec fn starts_with_text(hay: Seq<char>, prefix: Seq<char>) -> bool {
    prefix.len() <= hay.len() && hay.subrange(0, prefix.len() as int) == prefix
}

/// Appends one character to a string.
#[verifier::external_body]
pub(crate) fn push_char(s: &mut String, c: char)
    ensures
        final(s)@ == old(s)@.push(c),
{
    s.push(c);
}

/// The hexadecimal digit character for `d`.
pub fn hex_digit(d: u64) -> (c: char)
    requires
        d < 16,
    ensures
        c == hex_digit_char(d as nat),
{
    let b: u8 = d as u8;
    if b < 10 {
        (b + 48) as char
    } else {
        (b + 87) as char
    }
}

/// Decimal rendering of an unsigned integer, as `Display` writes it.
pub fn decimal_u64(n: u64) -> (s: String)
    ensures
        s@ == decimal_text(n as nat),
    decreases n,
{
    if n < 10 {
        let mut s = String::new();
        push_char(&mut s, hex_digit(n));
        s
    } else {
        let mut s = decimal_u64(n / 10);
        push_char(&mut s, hex_digit(n % 10));
        s
    }
}

/// Decimal rendering of a signed integer, as `Display` writes it.
pub fn decimal_i64(n: i64) -> (s: String)
    ensures
        s@ == signed_decimal_text(n as int),
{
    if n < 0 {
        let magnitude: u64 = (0i128 - (n as i128)) as u64;
        let digits = decimal_u64(magnitude);
        let mut s = String::new();
        push_char(&mut s, '-');
        s.append(digits.as_str());
        s
    } else {
        decimal_u64(n as u64)
    }
}

/// Lowercase hexadecimal rendering of an unsigned integer without prefix or leading zeros,
/// as the `{:x}` format writes it.
pub fn lower_hex_u64(n: u64) -> (s: String)
    ensures
        s@ == hex_text(n as nat),
    decreases n,
{
    if n < 16 {
        let mut s = String::new();
        push_char(&mut s, hex_digit(n));
        s
    } else {
        let mut s = lower_hex_u64(n / 16);
        push_char(&mut s, hex_digit(n % 16));
        s
    }
}


/// The value of a hexadecimal digit character (either case), or `None` for another character.
pub open spec fn hex_digit_value(c: char) -> Option<nat> {
    if '0' <= c && c <= '9' {
        Some((c as nat - 48) as nat)
    } else if 'a' <= c && c <= 'f' {
        Some((c as nat - 87) as nat)
    } else if 'A' <= c && c <= 'F' {
        Some((c as nat - 55) as nat)
    } else {
        None
    }
}

/// The number that a text of hexadecimal digits denotes, read most significant digit first:
/// the digits `d_0 .. d_k` give `d_0 * 16^k + .. + d_k`; `None` where a character is not a
/// hexadecimal digit.
pub open spec fn hex_reading(s: Seq<char>) -> Option<nat>
    decreases s.len(),
{
    if s.len() == 0 {
        Some(0)
    } else {
        match (hex_reading(s.drop_last()), hex_digit_value(s.last())) {
            (Some(high), Some(d)) => Some(high * 16 + d),
            _ => None,
        }
    }
}

proof fn lemma_hex_digit_reads_back(d: nat)
    requires
        d < 16,
    ensures
        hex_digit_value(hex_digit_char(d)) == Some(d),
        '0' <= hex_digit_char(d) <= '9' || 'a' <= hex_digit_char(d) <= 'f',
        hex_digit_char(d) == '0' <==> d == 0,
{
    let c = hex_digit_char(d);
    if d < 10 {
        assert(c as nat == d + 48);
    } else {
        assert(c as nat == d + 87);
    }
}

/// The hexadecimal text of a number reads back as that number: it is non-empty, made of
/// lowercase hex digits only, starts with `0` only for zero itself, and its digits denote
/// exactly `n`.
pub proof fn lemma_hex_text_reads_back(n: nat)
    ensures
        hex_reading(hex_text(n)) == Some(n),
        hex_text(n).len() >= 1,
        forall|i: int| 0 <= i < hex_text(n).len() ==> ('0' <= #[trigger] hex_text(n)[i] <= '9'
            || 'a' <= hex_text(n)[i] <= 'f'),
        n > 0 ==> hex_text(n)[0] != '0',
        n == 0 ==> hex_text(n) == seq!['0'],
    decreases n,
{
    if n < 16 {
        lemma_hex_digit_reads_back(n);
        let s = hex_text(n);
        assert(s.drop_last() =~= Seq::<char>::empty());
        assert(hex_reading(s.drop_last()) == Some(0nat));
        assert(s.last() == hex_digit_char(n));
        assert(hex_reading(s) == Some(0nat * 16 + n));
    } else {
        lemma_hex_digit_reads_back(n % 16);
        lemma_hex_text_reads_back(n / 16);
        let s = hex_text(n);
        assert(s.drop_last() =~= hex_text(n / 16));
        assert(n / 16 * 16 + n % 16 == n);
        assert(s.last() == hex_digit_char(n % 16));
        assert(hex_reading(s) == Some(n / 16 * 16 + n % 16));
    }
}

/// Two numbers with the same hexadecimal text are equal: the rendering loses nothing.
pub proof fn lemma_hex_text_injective(m: nat, n: nat)
    requires
        hex_text(m) == hex_text(n),
    ensures
        m == n,
{
    lemma_hex_text_reads_back(m);
    lemma_hex_text_reads_back(n);
}

/// Byte `i` of `b` is written in `h` as the two characters at `2i` (high nibble) and
/// `2i + 1` (low nibble).
pub open spec fn byte_written_at(h: Seq<char>, b: Seq<u8>, i: int) -> bool {
    &&& h[2 * i] == hex_digit_char((b[i] / 16) as nat)
    &&& h[2 * i + 1] == hex_digit_char((b[i] % 16) as nat)
}

/// The hexadecimal text of every byte sits at its own place: two characters per byte,
/// byte `i` at characters `2i` and `2i + 1`, so the bytes keep their order.
pub proof fn lemma_hex_bytes_positions(b: Seq<u8>)
    ensures
        hex_bytes(b).len() == 2 * b.len(),
        forall|i: int| 0 <= i < b.len() ==> #[trigger] byte_written_at(hex_bytes(b), b, i),
    decreases b.len(),
{
    if b.len() > 0 {
        let d = b.drop_last();
        lemma_hex_bytes_positions(d);
        let h = hex_bytes(b);
        let t = hex_bytes(d);
        let tail = seq![
            hex_digit_char((b.last() / 16) as nat),
            hex_digit_char((b.last() % 16) as nat),
        ];
        assert(h == t + tail);
        assert forall|i: int| 0 <= i < b.len() implies #[trigger] byte_written_at(h, b, i) by {
            if i < b.len() - 1 {
                assert(byte_written_at(t, d, i));
                assert(d[i] == b[i]);
                assert(h[2 * i] == t[2 * i]);
                assert(h[2 * i + 1] == t[2 * i + 1]);
            } else {
                assert(h[2 * i] == tail[0]);
                assert(h[2 * i + 1] == tail[1]);
            }
        }
    }
}

/// The characters of a string slice, in order.
pub fn chars_of(s: &str) -> (v: Vec<char>)
    ensures
        v@ == s@,
{
    let n = s.unicode_len();
    let mut v: Vec<char> = Vec::new();
    let mut i: usize = 0;
    while i < n
        invariant
            n == s@.len(),
            i <= n,
            v@ == s@.subrange(0, i as int),
        decreases n - i,
    {
        v.push(s.get_char(i));
        i += 1;
    }
    assert(v@ == s@);
    v
}

/// A string made of the given characters.
pub fn string_of(v: &[char]) -> (s: String)
    ensures
        s@ == v@,
{
    let mut s = String::new();
    let mut i: usize = 0;
    while i < v.len()
        invariant
            i <= v@.len(),
            s@ == v@.subrange(0, i as int),
        decreases v@.len() - i,
    {
        push_char(&mut s, v[i]);
        i += 1;
    }
    assert(s@ == v@);
    s
}

/// Whether `needle` occurs in `hay` at position `i`.
fn occurs_at_exec(hay: &Vec<char>, needle: &Vec<char>, i: usize) -> (b: bool)
    ensures
        b == occurs_at(hay@, needle@, i as int),
{
    if i > hay.len() || needle.len() > hay.len() - i {
        return false;
    }
    let mut j: usize = 0;
    while j < needle.len()
        invariant
            i + needle@.len() <= hay.len(),
            j <= needle@.len(),
            forall|k: int| 0 <= k < j ==> hay@[i + k] == needle@[k],
        decreases needle@.len() - j,
    {
        if hay[i + j] != needle[j] {
            assert(hay@.subrange(i as int, i + needle@.len())[j as int] != needle@[j as int]);
            return false;
        }
        j += 1;
    }
    assert(hay@.subrange(i as int, i + needle@.len()) =~= needle@);
    true
}

/// Whether `needle` occurs somewhere in `hay`, as `str::contains` answers.
pub fn contains_str(hay: &str, needle: &str) -> (b: bool)
    ensures
        b == contains_text(hay@, needle@),
{
    let h = chars_of(hay);
    let n = chars_of(needle);
    if n.len() > h.len() {
        assert forall|i: int| !occurs_at(hay@, needle@, i) by {}
        return false;
    }
    if n.len() == 0 {
        assert(hay@.subrange(0, 0) =~= needle@);
        assert(occurs_at(hay@, needle@, 0));
        return true;
    }
    let last = h.len() - n.len();
    let mut i: usize = 0;
    while i <= last
        invariant
            h@ == hay@,
            n@ == needle@,
            last == h.len() - n.len(),
            n.len() > 0,
            i <= last + 1,
            forall|k: int| 0 <= k < i ==> !occurs_at(hay@, needle@, k),
        decreases last + 1 - i,
    {
        if occurs_at_exec(&h, &n, i) {
            return true;
        }
        i += 1;
    }
    assert forall|k: int| !occurs_at(hay@, needle@, k) by {
        if 0 <= k < i {
        }
    }
    false
}

/// Whether `hay` begins with `prefix`, as `str::starts_with` answers.
pub fn starts_with_str(hay: &str, prefix: &str) -> (b: bool)
    ensures
        b == starts_with_text(hay@, prefix@),
{
    let h = chars_of(hay);
    let p = chars_of(prefix);
    let r = occurs_at_exec(&h, &p, 0);
    assert(r == starts_with_text(hay@, prefix@));
    r
}


/// The value paired with the first occurrence of `key`, if any.
pub open spec fn pair_lookup(pairs: Seq<(String, String)>, key: Seq<char>) -> Option<Seq<char>>
    decreases pairs.len(),
{
    if pairs.len() == 0 {
        None
    } else if pairs[0].0@ == key {
        Some(pairs[0].1@)
    } else {
        pair_lookup(pairs.drop_first(), key)
    }
}

/// The value paired with the first occurrence of `key` in a list of name/value pairs.
pub fn lookup_pair(pairs: &Vec<(String, String)>, key: &str) -> (r: Option<String>)
    ensures
        r is Some <==> pair_lookup(pairs@, key@) is Some,
        r matches Some(v) ==> pair_lookup(pairs@, key@) == Some(v@),
{
    let wanted: String = key.to_owned();
    let mut i: usize = 0;
    assert(pairs@.subrange(0, pairs@.len() as int) =~= pairs@);
    while i < pairs.len()
        invariant
            i <= pairs@.len(),
            wanted@ == key@,
            pair_lookup(pairs@, key@) == pair_lookup(pairs@.subrange(i as int, pairs@.len() as int), key@),
        decreases pairs@.len() - i,
    {
        let ghost rest = pairs@.subrange(i as int, pairs@.len() as int);
        assert(rest.drop_first() =~= pairs@.subrange(i + 1, pairs@.len() as int));
        if pairs[i].0 == wanted {
            return Some(pairs[i].1.clone());
        }
        i += 1;
    }
    None
}

} // verus!
