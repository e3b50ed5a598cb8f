//! Tokens as text: hexadecimal digits, and the `Authorization` header that
//! carries them behind the word `Bearer`.

use vstd::prelude::*;
use vstd::slice::slice_subrange;

verus! {

/// The ASCII digit for a value below sixteen, letters in lower case.
pub open spec fn hex_digit(value: u8) -> u8 {
    if value < 10 {
        (48 + value) as u8
    } else {
        (87 + value) as u8
    }
}

/// The value of an ASCII hexadecimal digit, letters in either case.
pub open spec fn hex_value(digit: u8) -> Option<u8> {
    if 48 <= digit <= 57 {
        Some((digit - 48) as u8)
    } else if 97 <= digit <= 102 {
        Some((digit - 87) as u8)
    } else if 65 <= digit <= 70 {
        Some((digit - 55) as u8)
    } else {
        None
    }
}

/// Bytes written as hexadecimal text: two digits for each byte, the high
/// half first.
pub open spec fn hex_text(bytes: Seq<u8>) -> Seq<u8> {
    Seq::new(
        2 * bytes.len(),
        |i: int|
            if i % 2 == 0 {
                hex_digit(bytes[i / 2] / 16)
            } else {
                hex_digit(bytes[i / 2] % 16)
            },
    )
}

/// The bytes that hexadecimal text stands for. There are none if the
/// number of digits is odd, or if some character is no digit.
pub open spec fn hex_bytes(text: Seq<u8>) -> Option<Seq<u8>> {
    if text.len() % 2 != 0 {
        None
    } else if exists|i: int| 0 <= i < text.len() && hex_value(#[trigger] text[i]) is None {
        None
    } else {
        Some(
            Seq::new(
                text.len() / 2,
                |k: int| (hex_value(text[2 * k])->0 * 16 + hex_value(text[2 * k + 1])->0) as u8,
            ),
        )
    }
}

/// The word and the space that stand before the token in the header.
pub open spec fn bearer_prefix() -> Seq<u8> {
    seq![66u8, 101u8, 97u8, 114u8, 101u8, 114u8, 32u8]
}

/// The header value that carries `token`.
pub open spec fn bearer_header(token: Seq<u8>) -> Seq<u8> {
    bearer_prefix() + hex_text(token)
}

/// The token that a header value carries: what stands behind `Bearer` and
/// one space, read as hexadecimal text.
pub open spec fn bearer_token(header: Seq<u8>) -> Option<Seq<u8>> {
    if header.len() >= 7 && header.take(7) == bearer_prefix() {
        hex_bytes(header.skip(7))
    } else {
        None
    }
}

/// The token that a request presents: the one in its header, or no bytes
/// at all where the header is missing or carries none.
pub open spec fn presented(header: Option<Seq<u8>>) -> Seq<u8> {
    match header {
        Some(value) => match bearer_token(value) {
            Some(token) => token,
            None => Seq::empty(),
        },
        None => Seq::empty(),
    }
}

/// A digit written for a value reads back as that value.
pub proof fn lemma_digit_round_trip(value: u8)
    requires
        value < 16,
    ensures
        hex_value(hex_digit(value)) == Some(value),
{
}

/// Bytes written as hexadecimal text read back as themselves.
pub proof fn lemma_hex_round_trip(bytes: Seq<u8>)
    ensures
        hex_text(bytes).len() == 2 * bytes.len(),
        hex_bytes(hex_text(bytes)) == Some(bytes),
{
    let text = hex_text(bytes);
    assert forall|i: int| 0 <= i < text.len() implies hex_value(#[trigger] text[i]) is Some by {
        lemma_digit_round_trip(bytes[i / 2] / 16);
        lemma_digit_round_trip(bytes[i / 2] % 16);
    }
    let back = hex_bytes(text)->0;
    assert forall|k: int| 0 <= k < bytes.len() implies back[k] == bytes[k] by {
        lemma_digit_round_trip(bytes[k] / 16);
        lemma_digit_round_trip(bytes[k] % 16);
        assert((2 * k) % 2 == 0 && (2 * k) / 2 == k);
        assert((2 * k + 1) % 2 == 1 && (2 * k + 1) / 2 == k);
        assert(text[2 * k] == hex_digit(bytes[k] / 16));
        assert(text[2 * k + 1] == hex_digit(bytes[k] % 16));
    }
    assert(back =~= bytes);
}

/// A token put into a header is the token read from it.
pub proof fn lemma_bearer_round_trip(token: Seq<u8>)
    ensures
        bearer_token(bearer_header(token)) == Some(token),
        presented(Some(bearer_header(token))) == token,
{
    let header = bearer_header(token);
    assert(header.take(7) == bearer_prefix());
    assert(header.skip(7) == hex_text(token));
    lemma_hex_round_trip(token);
}

/// The digit for a value below sixteen.
fn digit_of(value: u8) -> (digit: u8)
    requires
        value < 16,
    ensures
        digit == hex_digit(value),
{
    if value < 10 {
        48 + value
    } else {
        87 + value
    }
}

/// The value of a digit, if it is one.
fn value_of(digit: u8) -> (value: Option<u8>)
    ensures
        value == hex_value(digit),
        value is Some ==> value->0 < 16,
{
    if 48 <= digit && digit <= 57 {
        Some(digit - 48)
    } else if 97 <= digit && digit <= 102 {
        Some(digit - 87)
    } else if 65 <= digit && digit <= 70 {
        Some(digit - 55)
    } else {
        None
    }
}

/// Writes bytes as hexadecimal text.
pub fn encode_hex(bytes: &[u8]) -> (text: Vec<u8>)
    ensures
        text@ == hex_text(bytes@),
{
    let mut text: Vec<u8> = Vec::new();
    let mut k: usize = 0;
    while k < bytes.len()
        invariant
            k <= bytes@.len(),
            text@.len() == 2 * k,
            forall|i: int| 0 <= i < 2 * k ==> text@[i] == hex_text(bytes@)[i],
        decreases bytes@.len() - k,
    {
        let b: u8 = bytes[k];
        text.push(digit_of(b / 16));
        text.push(digit_of(b % 16));
        proof {
            let j = k as int;
            assert((2 * j) % 2 == 0 && (2 * j) / 2 == j);
            assert((2 * j + 1) % 2 == 1 && (2 * j + 1) / 2 == j);
        }
        k = k + 1;
    }
    assert(text@ =~= hex_text(bytes@));
    text
}

/// Reads hexadecimal text as bytes.
pub fn decode_hex(text: &[u8]) -> (bytes: Option<Vec<u8>>)
    ensures
        match bytes {
            Some(b) => hex_bytes(text@) == Some(b@),
            None => hex_bytes(text@) is None,
        },
{
    if text.len() % 2 != 0 {
        return None;
    }
    let n: usize = text.len() / 2;
    let mut bytes: Vec<u8> = Vec::new();
    let mut k: usize = 0;
    while k < n
        invariant
            text@.len() == 2 * n,
            k <= n,
            bytes@.len() == k,
            forall|i: int| 0 <= i < 2 * k ==> hex_value(#[trigger] text@[i]) is Some,
            forall|j: int|
                0 <= j < k ==> #[trigger] bytes@[j] == (hex_value(text@[2 * j])->0 * 16 + hex_value(
                    text@[2 * j + 1],
                )->0) as u8,
        decreases n - k,
    {
        let high = value_of(text[2 * k]);
        let low = value_of(text[2 * k + 1]);
        match (high, low) {
            (Some(h), Some(l)) => {
                bytes.push(h * 16 + l);
            },
            _ => {
                proof {
                    if high is None {
                        assert(hex_value(text@[2 * k]) is None);
                    } else {
                        assert(hex_value(text@[2 * k + 1]) is None);
                    }
                }
                return None;
            },
        }
        k = k + 1;
    }
    proof {
        assert(bytes@ =~= hex_bytes(text@)->0);
    }
    Some(bytes)
}

/// Writes the header value that carries `token`.
pub fn write_bearer(token: &[u8]) -> (header: Vec<u8>)
    ensures
        header@ == bearer_header(token@),
{
    let mut header: Vec<u8> = Vec::new();
    header.push(66);
    header.push(101);
    header.push(97);
    header.push(114);
    header.push(101);
    header.push(114);
    header.push(32);
    let mut text = encode_hex(token);
    header.append(&mut text);
    assert(header@ =~= bearer_header(token@));
    header
}

/// Reads the token that a header value carries.
pub fn read_bearer(header: &[u8]) -> (token: Option<Vec<u8>>)
    ensures
        match token {
            Some(t) => bearer_token(header@) == Some(t@),
            None => bearer_token(header@) is None,
        },
{
    if header.len() < 7 {
        return None;
    }
    if header[0] != 66 || header[1] != 101 || header[2] != 97 || header[3] != 114 || header[4]
        != 101 || header[5] != 114 || header[6] != 32 {
        proof {
            let front = header@.take(7);
            assert(front[0] == header@[0] && front[1] == header@[1] && front[2] == header@[2]
                && front[3] == header@[3] && front[4] == header@[4] && front[5] == header@[5]
                && front[6] == header@[6]);
        }
        return None;
    }
    assert(header@.take(7) =~= bearer_prefix());
    let rest = slice_subrange(header, 7, header.len());
    assert(rest@ == header@.skip(7));
    decode_hex(rest)
}

/// The token that a request presents, ready for validation: the bytes in its
/// header, or none where the header is missing or carries no token. No
/// bytes make a token that every validation refuses.
pub fn token_from_header(header: Option<&[u8]>) -> (token: Vec<u8>)
    ensures
        token@ == presented(
            match header {
                Some(value) => Some(value@),
                None => None,
            },
        ),
{
    match header {
        Some(value) => match read_bearer(value) {
            Some(token) => token,
            None => Vec::new(),
        },
        None => Vec::new(),
    }
}

} // verus!
