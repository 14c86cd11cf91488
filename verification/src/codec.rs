//! The hex codec: parsing a hexadecimal string (with or without a
//! case-insensitive "0x" prefix) into a fixed-length byte vector, and
//! formatting a byte vector back into its canonical prefixed lowercase
//! representation. Both directions are generic over the byte length `n`.

use vstd::prelude::*;
use vstd::string::StrSliceExecFns;
use vstd::string::StringExecFns;

verus! {

/// A runtime parse failure: the input string cannot be decoded as the
/// hex representation of `n` bytes.
#[derive(Clone, Copy, Debug, PartialEq, Eq, Structural)]
pub enum ParseError {
    /// The length is neither `2n` nor `2n + 2`, or an input of length
    /// `2n + 2` does not begin with a case-insensitive "0x" prefix.
    InvalidLength,
    /// A character outside `[0-9a-fA-F]` appears in the digit window.
    InvalidHexDigit,
}

/// A character that may appear in the digit window: `[0-9a-fA-F]`.
pub open spec fn is_hex_digit(c: char) -> bool {
    ('0' <= c && c <= '9') || ('a' <= c && c <= 'f') || ('A' <= c && c <= 'F')
}

/// A character the formatter may emit as a digit: `[0-9a-f]`.
pub open spec fn is_lowercase_hex_digit(c: char) -> bool {
    ('0' <= c && c <= '9') || ('a' <= c && c <= 'f')
}

/// The numeric value of a hex digit character (meaningful under
/// `is_hex_digit`).
pub open spec fn nibble_value(c: char) -> u8 {
    if '0' <= c && c <= '9' {
        (c as u32 - '0' as u32) as u8
    } else if 'a' <= c && c <= 'f' {
        (c as u32 - 'a' as u32 + 10) as u8
    } else {
        (c as u32 - 'A' as u32 + 10) as u8
    }
}

/// The lowercase hex digit character for a value below 16.
pub open spec fn hex_digit_char(v: u8) -> char {
    if v < 10 {
        (v + '0' as u8) as char
    } else {
        ((v - 10) + 'a' as u8) as char
    }
}

/// The byte denoted by two hex digits, most-significant nibble first.
pub open spec fn byte_from_digits(hi: char, lo: char) -> u8 {
    (16 * nibble_value(hi) + nibble_value(lo)) as u8
}

/// Every character of `s` is a hex digit.
pub open spec fn all_hex_digits(s: Seq<char>) -> bool {
    forall|i: int| 0 <= i < s.len() ==> is_hex_digit(s[i])
}

/// The bytes denoted by a sequence of hex digits, two digits per byte
/// in order (meaningful when `s` has even length and `all_hex_digits(s)`).
pub open spec fn decoded_bytes(s: Seq<char>) -> Seq<u8> {
    Seq::new((s.len() / 2) as nat, |i: int| byte_from_digits(s[2 * i], s[2 * i + 1]))
}

/// The lowercase hex encoding of `bs`: two digits per byte,
/// most-significant nibble first, in array order.
pub open spec fn hex_encoding(bs: Seq<u8>) -> Seq<char> {
    Seq::new(
        (2 * bs.len()) as nat,
        |i: int|
            if i % 2 == 0 {
                hex_digit_char(bs[i / 2] / 16)
            } else {
                hex_digit_char(bs[i / 2] % 16)
            },
    )
}

/// The canonical textual representation of `bs`: "0x" followed by the
/// lowercase hex encoding.
pub open spec fn canonical_hex(bs: Seq<u8>) -> Seq<char> {
    seq!['0', 'x'] + hex_encoding(bs)
}

/// The first two characters of `s` are a case-insensitive "0x".
pub open spec fn has_hex_prefix(s: Seq<char>) -> bool {
    s.len() >= 2 && s[0] == '0' && (s[1] == 'x' || s[1] == 'X')
}

/// What parsing `s` as the hex representation of `n` bytes yields:
/// a string of exactly `2n` hex digits decodes directly; a string of
/// exactly `2n + 2` characters must carry a case-insensitive "0x"
/// prefix and its remainder decodes; every other length is rejected.
pub open spec fn parse_result(s: Seq<char>, n: nat) -> Result<Seq<u8>, ParseError> {
    if s.len() == 2 * n {
        if all_hex_digits(s) {
            Ok(decoded_bytes(s))
        } else {
            Err(ParseError::InvalidHexDigit)
        }
    } else if s.len() == 2 * n + 2 {
        if has_hex_prefix(s) {
            if all_hex_digits(s.skip(2)) {
                Ok(decoded_bytes(s.skip(2)))
            } else {
                Err(ParseError::InvalidHexDigit)
            }
        } else {
            Err(ParseError::InvalidLength)
        }
    } else {
        Err(ParseError::InvalidLength)
    }
}

/// The numeric value of a hex digit character, or `None` for any other
/// character.
pub fn hex_digit_value(c: char) -> (r: Option<u8>)
    ensures
        r is Some <==> is_hex_digit(c),
        is_hex_digit(c) ==> r == Some(nibble_value(c)) && nibble_value(c) < 16,
{
    let u = c as u32;
    if 48 <= u && u <= 57 {
        Some((u - 48) as u8)
    } else if 97 <= u && u <= 102 {
        Some((u - 97 + 10) as u8)
    } else if 65 <= u && u <= 70 {
        Some((u - 65 + 10) as u8)
    } else {
        None
    }
}

/// Decodes the `2 * n` characters of `s` starting at `start` as hex
/// digits, two per byte, or reports the first window that holds a
/// non-digit. Never succeeds partially.
fn decode_digits(s: &str, start: usize, n: usize) -> (r: Result<Vec<u8>, ParseError>)
    requires
        start + 2 * n == s@.len(),
    ensures
        match r {
            Ok(bytes) => {
                &&& all_hex_digits(s@.skip(start as int))
                &&& bytes@ == decoded_bytes(s@.skip(start as int))
                &&& bytes@.len() == n
            },
            Err(e) => {
                &&& e == ParseError::InvalidHexDigit
                &&& !all_hex_digits(s@.skip(start as int))
            },
        },
{
    let len = s.unicode_len();
    let ghost window = s@.skip(start as int);
    let mut bytes: Vec<u8> = Vec::new();
    let mut i: usize = 0;
    while i < n
        invariant
            i <= n,
            start + 2 * n == s@.len(),
            s@.len() <= usize::MAX,
            window == s@.skip(start as int),
            bytes@.len() == i,
            forall|j: int| 0 <= j < 2 * i ==> is_hex_digit(#[trigger] s@[start + j]),
            forall|j: int|
                0 <= j < i ==> bytes@[j] == byte_from_digits(
                    s@[start + 2 * j],
                    s@[start + 2 * j + 1],
                ),
        decreases n - i,
    {
        let hi = s.get_char(start + 2 * i);
        let lo = s.get_char(start + 2 * i + 1);
        let hv = hex_digit_value(hi);
        let lv = hex_digit_value(lo);
        match (hv, lv) {
            (Some(h), Some(l)) => {
                bytes.push(16 * h + l);
            },
            _ => {
                proof {
                    let bad: int = if !is_hex_digit(hi) {
                        2 * i
                    } else {
                        2 * i + 1
                    };
                    assert(window[bad] == s@[start + bad]);
                    assert(!is_hex_digit(window[bad]));
                }
                return Err(ParseError::InvalidHexDigit);
            },
        }
        i += 1;
    }
    proof {
        assert forall|j: int| 0 <= j < window.len() implies is_hex_digit(window[j]) by {
            assert(window[j] == s@[start + j]);
        }
        assert(bytes@ =~= decoded_bytes(window)) by {
            assert forall|j: int| 0 <= j < n implies bytes@[j] == decoded_bytes(window)[j] by {
                assert(window[2 * j] == s@[start + 2 * j]);
                assert(window[2 * j + 1] == s@[start + 2 * j + 1]);
            }
        }
    }
    Ok(bytes)
}

/// Parses `s` as the hex representation of exactly `n` bytes, per
/// `parse_result`: either all `n` bytes are produced or the whole
/// operation fails with a typed error.
pub fn parse(s: &str, n: usize) -> (r: Result<Vec<u8>, ParseError>)
    ensures
        match r {
            Ok(bytes) => parse_result(s@, n as nat) == Ok::<Seq<u8>, ParseError>(bytes@)
                && bytes@.len() == n,
            Err(e) => parse_result(s@, n as nat) == Err::<Seq<u8>, ParseError>(e),
        },
{
    let len = s.unicode_len();
    if len % 2 == 0 && len / 2 == n {
        proof {
            assert(s@.len() == 2 * n);
            assert(s@.skip(0) =~= s@);
        }
        decode_digits(s, 0, n)
    } else if len >= 2 && len % 2 == 0 && (len - 2) / 2 == n {
        proof {
            assert(s@.len() == 2 * n + 2);
            assert(s@.len() != 2 * n);
        }
        let c0 = s.get_char(0);
        let c1 = s.get_char(1);
        if c0 == '0' && (c1 == 'x' || c1 == 'X') {
            decode_digits(s, 2, n)
        } else {
            Err(ParseError::InvalidLength)
        }
    } else {
        proof {
            assert(s@.len() != 2 * n);
            assert(s@.len() != 2 * n + 2);
        }
        Err(ParseError::InvalidLength)
    }
}

/// The one-character string that spells the lowercase hex digit for a
/// value below 16.
fn hex_digit_str(v: u8) -> (r: &'static str)
    requires
        v < 16,
    ensures
        r@ == seq![hex_digit_char(v)],
{
    proof {
        reveal_strlit("0");
        reveal_strlit("1");
        reveal_strlit("2");
        reveal_strlit("3");
        reveal_strlit("4");
        reveal_strlit("5");
        reveal_strlit("6");
        reveal_strlit("7");
        reveal_strlit("8");
        reveal_strlit("9");
        reveal_strlit("a");
        reveal_strlit("b");
        reveal_strlit("c");
        reveal_strlit("d");
        reveal_strlit("e");
        reveal_strlit("f");
    }
    let r: &'static str = if v == 0 {
        "0"
    } else if v == 1 {
        "1"
    } else if v == 2 {
        "2"
    } else if v == 3 {
        "3"
    } else if v == 4 {
        "4"
    } else if v == 5 {
        "5"
    } else if v == 6 {
        "6"
    } else if v == 7 {
        "7"
    } else if v == 8 {
        "8"
    } else if v == 9 {
        "9"
    } else if v == 10 {
        "a"
    } else if v == 11 {
        "b"
    } else if v == 12 {
        "c"
    } else if v == 13 {
        "d"
    } else if v == 14 {
        "e"
    } else {
        "f"
    };
    proof {
        assert(r@ =~= seq![hex_digit_char(v)]);
    }
    r
}

/// Formats `bytes` as its canonical textual representation: "0x"
/// followed by two lowercase hex digits per byte, in array order.
/// Formatting never fails.
pub fn format(bytes: &Vec<u8>) -> (r: String)
    ensures
        r@ == canonical_hex(bytes@),
        r@.len() == 2 * bytes@.len() + 2,
{
    let mut out: String = "0x".to_owned();
    proof {
        reveal_strlit("0x");
        assert(out@ =~= seq!['0', 'x']);
        assert(out@ =~= canonical_hex(bytes@.take(0)));
    }
    let mut i: usize = 0;
    while i < bytes.len()
        invariant
            i <= bytes.len(),
            out@ == canonical_hex(bytes@.take(i as int)),
        decreases bytes.len() - i,
    {
        let b = bytes[i];
        out.append(hex_digit_str(b / 16));
        out.append(hex_digit_str(b % 16));
        proof {
            let prev = bytes@.take(i as int);
            let next = bytes@.take(i + 1);
            assert(hex_encoding(next) =~= hex_encoding(prev) + seq![
                hex_digit_char(b / 16),
                hex_digit_char(b % 16),
            ]) by {
                assert forall|j: int| 0 <= j < 2 * next.len() implies hex_encoding(next)[j] == (
                hex_encoding(prev) + seq![hex_digit_char(b / 16), hex_digit_char(b % 16)])[j] by {
                    if j < 2 * i {
                        assert(next[j / 2] == prev[j / 2]);
                    } else {
                        assert(next[j / 2] == b);
                    }
                }
            }
            assert(out@ =~= canonical_hex(next));
        }
        i += 1;
    }
    proof {
        assert(bytes@.take(bytes@.len() as int) =~= bytes@);
    }
    out
}

/// The diagnostic rendering of a named value: the type name paired
/// with the canonical formatted string, as "name(0x...)".
pub fn debug_string(name: &str, bytes: &Vec<u8>) -> (r: String)
    ensures
        r@ == name@ + seq!['('] + canonical_hex(bytes@) + seq![')'],
{
    let mut out: String = name.to_owned();
    out.append("(");
    let hex = format(bytes);
    out.append(hex.as_str());
    out.append(")");
    proof {
        reveal_strlit("(");
        reveal_strlit(")");
        assert(out@ =~= name@ + seq!['('] + canonical_hex(bytes@) + seq![')']);
    }
    out
}

impl ParseError {
    /// The human-readable description of this failure.
    pub open spec fn message_spec(self) -> Seq<char> {
        match self {
            ParseError::InvalidLength => "invalid string length"@,
            ParseError::InvalidHexDigit => "invalid character"@,
        }
    }

    /// Renders the description that deserialization adapters hand to
    /// the host framework's error channel.
    pub fn message(&self) -> (r: String)
        ensures
            r@ == self.message_spec(),
    {
        match self {
            ParseError::InvalidLength => "invalid string length".to_owned(),
            ParseError::InvalidHexDigit => "invalid character".to_owned(),
        }
    }
}

/// The deserialization adapter's computational half: reads a string
/// primitive, applies the parsing algorithm, and renders any failure
/// as the description that the host framework's error channel
/// receives. Either all `n` bytes are produced or the description of
/// the one parse failure comes back.
pub fn decode_text(s: &str, n: usize) -> (r: Result<Vec<u8>, String>)
    ensures
        match r {
            Ok(bytes) => parse_result(s@, n as nat) == Ok::<Seq<u8>, ParseError>(bytes@)
                && bytes@.len() == n,
            Err(m) => parse_result(s@, n as nat) is Err && m@ == (parse_result(
                s@,
                n as nat,
            )->Err_0).message_spec(),
        },
{
    match parse(s, n) {
        Ok(bytes) => Ok(bytes),
        Err(e) => Err(e.message()),
    }
}

/// Law: formatting is canonical — the output always has length
/// `2n + 2`, starts with "0x", and uses only lowercase hex digits.
pub proof fn lemma_canonical_form(bytes: Seq<u8>)
    ensures
        canonical_hex(bytes).len() == 2 * bytes.len() + 2,
        canonical_hex(bytes)[0] == '0',
        canonical_hex(bytes)[1] == 'x',
        forall|i: int|
            2 <= i < canonical_hex(bytes).len() ==> is_lowercase_hex_digit(
                #[trigger] canonical_hex(bytes)[i],
            ),
{
    assert forall|i: int| 2 <= i < canonical_hex(bytes).len() implies is_lowercase_hex_digit(
        #[trigger] canonical_hex(bytes)[i],
    ) by {
        assert(canonical_hex(bytes)[i] == hex_encoding(bytes)[i - 2]);
    }
}

/// Law: round trip — for every length `n` and every byte sequence of
/// that length, parsing the canonical formatted string yields exactly
/// the original bytes.
pub proof fn lemma_round_trip(bytes: Seq<u8>, n: nat)
    requires
        bytes.len() == n,
    ensures
        parse_result(canonical_hex(bytes), n) == Ok::<Seq<u8>, ParseError>(bytes),
{
    let s = canonical_hex(bytes);
    assert(s.len() == 2 * n + 2);
    let w = s.skip(2);
    assert(w =~= hex_encoding(bytes));
    assert forall|i: int| 0 <= i < w.len() implies is_hex_digit(w[i]) by {
        assert(w[i] == hex_encoding(bytes)[i]);
    }
    assert(decoded_bytes(w) =~= bytes) by {
        assert forall|i: int| 0 <= i < n implies decoded_bytes(w)[i] == bytes[i] by {
            let b = bytes[i];
            assert(w[2 * i] == hex_digit_char(b / 16));
            assert(w[2 * i + 1] == hex_digit_char(b % 16));
            assert(nibble_value(hex_digit_char(b / 16)) == b / 16);
            assert(nibble_value(hex_digit_char(b % 16)) == b % 16);
        }
    }
}

/// Law: length rejection — a string whose length is neither `2n` nor
/// `2n + 2` is rejected with `InvalidLength`, and no decoding happens.
pub proof fn lemma_length_rejection(s: Seq<char>, n: nat)
    requires
        s.len() != 2 * n,
        s.len() != 2 * n + 2,
    ensures
        parse_result(s, n) == Err::<Seq<u8>, ParseError>(ParseError::InvalidLength),
{
}

/// Law: prefix strictness — a string of length `2n + 2` whose first
/// two characters are not a case-insensitive "0x" is rejected with
/// `InvalidLength`, even though the length matched.
pub proof fn lemma_prefix_strictness(s: Seq<char>, n: nat)
    requires
        s.len() == 2 * n + 2,
        !has_hex_prefix(s),
    ensures
        parse_result(s, n) == Err::<Seq<u8>, ParseError>(ParseError::InvalidLength),
{
}

/// Law: the prefix is case-insensitive — a prefixed input parses
/// exactly as the same input with its prefix lowercased.
pub proof fn lemma_prefix_case_insensitive(s: Seq<char>, n: nat)
    requires
        s.len() == 2 * n + 2,
        s[0] == '0',
        s[1] == 'x' || s[1] == 'X',
    ensures
        parse_result(s, n) == parse_result(s.update(1, 'x'), n),
{
    let t = s.update(1, 'x');
    assert(t.skip(2) =~= s.skip(2));
}

/// Law: digits are case-insensitive on input — an uppercase hex letter
/// denotes the same value as its lowercase counterpart.
pub proof fn lemma_digit_case_insensitive(c: char)
    requires
        'A' <= c && c <= 'F',
    ensures
        is_hex_digit(c),
        nibble_value(c) == nibble_value(((c as u32 + 32) as char)),
{
}

/// Law: an unprefixed string of the right length parses whenever all
/// of its characters are hex digits, whatever their case.
pub proof fn lemma_mixed_case_digits(s: Seq<char>, n: nat)
    requires
        s.len() == 2 * n,
        all_hex_digits(s),
    ensures
        parse_result(s, n) is Ok,
{
}

} // verus!
