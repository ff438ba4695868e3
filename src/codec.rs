use sha2::Digest;
use vstd::prelude::*;
use crate::model::{instant_in_range, GittyHash};

verus! {

/// Lowercase hexadecimal digit of `n` (0..16).
pub open spec fn hex_digit(n: int) -> char {
    if n < 10 {
        (48 + n) as char
    } else {
        (87 + n) as char
    }
}

/// Whether `c` is a hexadecimal digit of either case.
pub open spec fn is_hex_char(c: char) -> bool {
    ||| ('0' <= c && c <= '9')
    ||| ('a' <= c && c <= 'f')
    ||| ('A' <= c && c <= 'F')
}

/// The value of a hexadecimal digit.
pub open spec fn hex_val(c: char) -> int {
    if '0' <= c && c <= '9' {
        c as int - 48
    } else if 'a' <= c && c <= 'f' {
        c as int - 87
    } else {
        c as int - 55
    }
}

/// Two lowercase hexadecimal digits per byte, high nibble first.
pub open spec fn hex_text(b: Seq<u8>) -> Seq<char>
    decreases b.len(),
{
    if b.len() == 0 {
        Seq::empty()
    } else {
        hex_text(b.drop_last()) + seq![hex_digit(b.last() as int / 16), hex_digit(b.last() as int % 16)]
    }
}

/// The byte that the hexadecimal digits at `2 * i` and `2 * i + 1` of `t` stand for.
pub open spec fn hex_byte_at(t: Seq<char>, i: int) -> int {
    hex_val(t[2 * i]) * 16 + hex_val(t[2 * i + 1])
}

/// The wire form of a hash: `sha256:` and 64 lowercase hexadecimal digits.
pub open spec fn hash_text(h: Seq<u8>) -> Seq<char> {
    "sha256:"@ + hex_text(h)
}

/// Whether `t` has the shape of a hash's wire form (digits of either case).
pub open spec fn is_hash_text(t: Seq<char>) -> bool {
    &&& t.len() == 71
    &&& t.subrange(0, 7) == "sha256:"@
    &&& forall|i: int| 7 <= i < 71 ==> is_hex_char(#[trigger] t[i])
}

/// Decimal digit `n` (0..10).
pub open spec fn dec_digit(n: int) -> char {
    (48 + n) as char
}

/// The decimal form of `n`, without leading zeros.
pub open spec fn dec_text(n: nat) -> Seq<char>
    decreases n,
{
    if n < 10 {
        seq![dec_digit(n as int)]
    } else {
        dec_text(n / 10) + seq![dec_digit((n % 10) as int)]
    }
}

/// What SHA-256 makes of a byte string.
pub uninterp spec fn sha256_of(data: Seq<u8>) -> Seq<u8>;

/// How a JSON string literal writes one character: quote, backslash and the
/// control characters escaped (the short forms where JSON has them, else
/// `\u00` and two lowercase digits), every other character as it is.
pub open spec fn json_escape_char(c: char) -> Seq<char> {
    if c == '"' {
        seq!['\\', '"']
    } else if c == '\\' {
        seq!['\\', '\\']
    } else if c == '\n' {
        seq!['\\', 'n']
    } else if c == '\r' {
        seq!['\\', 'r']
    } else if c == '\t' {
        seq!['\\', 't']
    } else if c == '\x08' {
        seq!['\\', 'b']
    } else if c == '\x0c' {
        seq!['\\', 'f']
    } else if (c as int) < 0x20 {
        seq!['\\', 'u', '0', '0', hex_digit(c as int / 16), hex_digit(c as int % 16)]
    } else {
        seq![c]
    }
}

/// The characters of `s`, each written as a JSON string literal writes it.
pub open spec fn json_escaped(s: Seq<char>) -> Seq<char>
    decreases s.len(),
{
    if s.len() == 0 {
        Seq::empty()
    } else {
        json_escaped(s.drop_last()) + json_escape_char(s.last())
    }
}

/// The JSON string literal of `s`, quotes included.
pub open spec fn json_quoted(s: Seq<char>) -> Seq<char> {
    seq!['"'] + json_escaped(s) + seq!['"']
}

/// What chrono writes for an instant in RFC 3339 form (fraction only when
/// non-zero, `Z` for a zero offset).
pub uninterp spec fn rfc3339_of(secs: i64, nanos: u32, offset: i32) -> Seq<char>;

/// Relies on `String::push`: appends one character.
#[verifier::external_body]
pub(crate) fn push_char(s: &mut String, c: char)
    ensures
        final(s)@ == old(s)@.push(c),
{
    s.push(c)
}

/// Relies on `hex::encode`: two lowercase digits per byte, high nibble first.
#[verifier::external_body]
pub(crate) fn hex_encode(b: &[u8]) -> (r: String)
    ensures
        r@ == hex_text(b@),
{
    hex::encode(b)
}

/// Relies on `hex::FromHex` for `[u8; 32]`: accepts exactly 64 hexadecimal
/// digits of either case and decodes them pairwise.
#[verifier::external_body]
fn hex_decode_32(s: &str) -> (r: Option<[u8; 32]>)
    ensures
        r is Some <==> (s@.len() == 64 && forall|i: int| 0 <= i < 64 ==> is_hex_char(#[trigger] s@[i])),
        r matches Some(a) ==> forall|i: int| 0 <= i < 32 ==> #[trigger] a@[i] == hex_byte_at(s@, i),
{
    match <[u8; 32] as hex::FromHex>::from_hex(s) {
        Ok(a) => Some(a),
        Err(_) => None,
    }
}

/// Relies on `sha2::Sha256::digest`: the SHA-256 digest of the bytes.
#[verifier::external_body]
pub(crate) fn sha256_digest(data: &[u8]) -> (r: GittyHash)
    ensures
        r@ == sha256_of(data@),
{
    GittyHash { sha256: <sha2::Sha256 as Digest>::digest(data).into() }
}

/// Relies on `serde_json::to_string` for `str`, which cannot fail: the JSON
/// string literal, escaped by serde_json's table of escapes.
#[verifier::external_body]
pub(crate) fn json_quote(s: &str) -> (r: String)
    ensures
        r@ == json_quoted(s@),
{
    match serde_json::to_string(s) {
        Ok(t) => t,
        Err(_) => String::new(),
    }
}

/// Relies on chrono's `DateTime::from_timestamp`, `FixedOffset::east_opt` and
/// `to_rfc3339_opts(SecondsFormat::AutoSi, true)`, which accept every instant
/// in the recorded range.
#[verifier::external_body]
pub(crate) fn rfc3339_text(secs: i64, nanos: u32, offset: i32) -> (r: String)
    requires
        instant_in_range(secs, nanos, offset),
    ensures
        r@ == rfc3339_of(secs, nanos, offset),
{
    let zone = chrono::FixedOffset::east_opt(offset).unwrap();
    let at = chrono::DateTime::from_timestamp(secs, nanos).unwrap();
    at.with_timezone(&zone).to_rfc3339_opts(chrono::SecondsFormat::AutoSi, true)
}

/// Appends the decimal form of `n`.
pub fn push_decimal(s: &mut String, n: u64)
    ensures
        final(s)@ == old(s)@ + dec_text(n as nat),
    decreases n,
{
    if n >= 10 {
        push_decimal(s, n / 10);
    }
    let d = n % 10;
    let c = if d == 0 {
        '0'
    } else if d == 1 {
        '1'
    } else if d == 2 {
        '2'
    } else if d == 3 {
        '3'
    } else if d == 4 {
        '4'
    } else if d == 5 {
        '5'
    } else if d == 6 {
        '6'
    } else if d == 7 {
        '7'
    } else if d == 8 {
        '8'
    } else {
        '9'
    };
    push_char(s, c);
    assert(final(s)@ =~= old(s)@ + dec_text(n as nat));
}

/// Digit `2 * i` and `2 * i + 1` of `hex_text(b)` are the nibbles of byte `i`.
pub proof fn lemma_hex_text(b: Seq<u8>)
    ensures
        hex_text(b).len() == 2 * b.len(),
        forall|i: int|
            0 <= i < b.len() ==> hex_text(b)[2 * i] == hex_digit(#[trigger] b[i] as int / 16)
                && hex_text(b)[2 * i + 1] == hex_digit(b[i] as int % 16),
    decreases b.len(),
{
    if b.len() > 0 {
        let p = b.drop_last();
        lemma_hex_text(p);
        assert forall|i: int| 0 <= i < b.len() implies hex_text(b)[2 * i] == hex_digit(
            #[trigger] b[i] as int / 16,
        ) && hex_text(b)[2 * i + 1] == hex_digit(b[i] as int % 16) by {
            if i < p.len() {
                assert(b[i] == p[i]);
            }
        }
    }
}

/// A lowercase digit reads back as the nibble it was written for.
pub proof fn lemma_hex_digit(n: int)
    requires
        0 <= n < 16,
    ensures
        is_hex_char(hex_digit(n)),
        hex_val(hex_digit(n)) == n,
{
}

/// The wire form of a hash parses back to the same bytes.
pub proof fn lemma_hash_text_round_trip(h: Seq<u8>)
    requires
        h.len() == 32,
    ensures
        is_hash_text(hash_text(h)),
        forall|i: int| 0 <= i < 32 ==> #[trigger] hex_byte_at(hash_text(h).subrange(7, 71), i) == h[i],
{
    reveal_strlit("sha256:");
    lemma_hex_text(h);
    let t = hash_text(h);
    assert(t.subrange(0, 7) =~= "sha256:"@);
    assert(t.subrange(7, 71) =~= hex_text(h));
    assert forall|j: int| 7 <= j < 71 implies is_hex_char(#[trigger] t[j]) by {
        let k = (j - 7) / 2;
        assert(0 <= k < 32);
        lemma_hex_digit(h[k] as int / 16);
        lemma_hex_digit(h[k] as int % 16);
        assert(j - 7 == 2 * k || j - 7 == 2 * k + 1);
    }
    assert forall|i: int| 0 <= i < 32 implies #[trigger] hex_byte_at(t.subrange(7, 71), i) == h[i] by {
        lemma_hex_digit(h[i] as int / 16);
        lemma_hex_digit(h[i] as int % 16);
    }
}

impl GittyHash {
    /// The wire form: `sha256:` and 64 lowercase hexadecimal digits.
    pub fn to_text(&self) -> (r: String)
        ensures
            r@ == hash_text(self@),
    {
        let digits = hex_encode(self.sha256.as_slice());
        let mut r = String::from_str("sha256:");
        r.append(digits.as_str());
        r
    }

    /// Parses the wire form; digits of either case are accepted.
    pub fn parse(s: &str) -> (r: Option<GittyHash>)
        ensures
            r is Some <==> is_hash_text(s@),
            r matches Some(h) ==> forall|i: int|
                0 <= i < 32 ==> #[trigger] h@[i] == hex_byte_at(s@.subrange(7, 71), i),
    {
        let n = s.unicode_len();
        if n != 71 {
            return None;
        }
        let prefix = String::from_str(s.substring_char(0, 7));
        let expected = String::from_str("sha256:");
        if prefix != expected {
            return None;
        }
        let digits = s.substring_char(7, 71);
        match hex_decode_32(digits) {
            Some(a) => {
                assert forall|j: int| 7 <= j < 71 implies is_hex_char(#[trigger] s@[j]) by {
                    assert(s@[j] == digits@[j - 7]);
                }
                Some(GittyHash { sha256: a })
            },
            None => {
                proof {
                    if is_hash_text(s@) {
                        assert forall|i: int| 0 <= i < 64 implies is_hex_char(#[trigger] digits@[i]) by {
                            assert(digits@[i] == s@[i + 7]);
                        }
                    }
                }
                None
            },
        }
    }
}

} // verus!
