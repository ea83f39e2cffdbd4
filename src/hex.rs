use vstd::prelude::*;

verus! {

/// True for `0-9`, `a-f` and `A-F`.
pub open spec fn is_hex_digit(c: char) -> bool {
    ('0' <= c && c <= '9') || ('a' <= c && c <= 'f') || ('A' <= c && c <= 'F')
}

/// The value of one hexadecimal digit.
pub open spec fn hex_value(c: char) -> nat {
    if '0' <= c && c <= '9' {
        (c as nat - '0' as nat) as nat
    } else if 'a' <= c && c <= 'f' {
        (c as nat - 'a' as nat + 10) as nat
    } else {
        (c as nat - 'A' as nat + 10) as nat
    }
}

/// A text that decodes: an even number of hexadecimal digits.
pub open spec fn is_hex_text(s: Seq<char>) -> bool {
    s.len() % 2 == 0 && forall|i: int| 0 <= i < s.len() ==> is_hex_digit(#[trigger] s[i])
}

/// The bytes a hex text stands for, two digits each, high digit first.
pub open spec fn hex_bytes(s: Seq<char>) -> Seq<u8> {
    Seq::new(s.len() / 2, |i: int| (16 * hex_value(s[2 * i]) + hex_value(s[2 * i + 1])) as u8)
}

/// The lowercase digit of a value below sixteen.
pub open spec fn hex_digit_of(v: nat) -> char {
    if v < 10 {
        ('0' as nat + v) as char
    } else {
        ('a' as nat + v - 10) as char
    }
}

/// The lowercase hex text of a byte sequence.
pub open spec fn hex_text(b: Seq<u8>) -> Seq<char> {
    Seq::new(2 * b.len(), |i: int|
        if i % 2 == 0 {
            hex_digit_of(b[i / 2] as nat / 16)
        } else {
            hex_digit_of(b[i / 2] as nat % 16)
        })
}

/// Why a text is not hex.
#[derive(Debug, Clone, Copy, PartialEq, Eq, Structural)]
pub enum DecodeError {
    /// The last pair of digits is incomplete.
    OddLength,
    /// A character is not a hexadecimal digit.
    InvalidDigit,
}

/// Why a text is not a MAC address.
#[derive(Debug, Clone, Copy, PartialEq, Eq, Structural)]
pub enum MacError {
    Decode(DecodeError),
    /// The text decodes, but not to six bytes.
    InvalidLength,
}

fn digit_value(c: char) -> (r: Option<u8>)
    ensures
        r is Some <==> is_hex_digit(c),
        r is Some ==> r->Some_0 as nat == hex_value(c) && r->Some_0 < 16,
{
    if '0' <= c && c <= '9' {
        Some(((c as u32) - ('0' as u32)) as u8)
    } else if 'a' <= c && c <= 'f' {
        Some(((c as u32) - ('a' as u32) + 10) as u8)
    } else if 'A' <= c && c <= 'F' {
        Some(((c as u32) - ('A' as u32) + 10) as u8)
    } else {
        None
    }
}

/// Decodes a text such as `12c0a7ff` into its bytes, two digits per byte.
pub fn decode_hex(s: &str) -> (r: Result<Vec<u8>, DecodeError>)
    ensures
        r is Ok <==> is_hex_text(s@),
        r is Ok ==> r->Ok_0@ == hex_bytes(s@),
        s@.len() % 2 == 1 ==> r == Err::<Vec<u8>, DecodeError>(DecodeError::OddLength),
        s@.len() % 2 == 0 && !is_hex_text(s@) ==> r == Err::<Vec<u8>, DecodeError>(
            DecodeError::InvalidDigit,
        ),
{
    let n = s.unicode_len();
    if n % 2 == 1 {
        return Err(DecodeError::OddLength);
    }
    let mut out: Vec<u8> = Vec::new();
    let mut i: usize = 0;
    while i < n
        invariant
            n == s@.len(),
            n % 2 == 0,
            i % 2 == 0,
            i <= n,
            out@.len() == i / 2,
            forall|j: int| 0 <= j < i ==> is_hex_digit(#[trigger] s@[j]),
            forall|k: int| 0 <= k < i / 2 ==> #[trigger] out@[k] == hex_bytes(s@)[k],
        decreases n - i,
    {
        let hi = digit_value(s.get_char(i));
        let lo = digit_value(s.get_char(i + 1));
        match (hi, lo) {
            (Some(h), Some(l)) => {
                out.push(16 * h + l);
                proof {
                    assert(forall|j: int| 0 <= j < i + 2 ==> is_hex_digit(#[trigger] s@[j]));
                }
                i = i + 2;
            },
            _ => {
                return Err(DecodeError::InvalidDigit);
            },
        }
    }
    assert(out@ =~= hex_bytes(s@));
    Ok(out)
}

/// Parses a MAC address written as twelve hex digits.
pub fn parse_mac(s: &str) -> (r: Result<[u8; 6], MacError>)
    ensures
        r is Ok <==> is_hex_text(s@) && s@.len() == 12,
        r is Ok ==> r->Ok_0@ == hex_bytes(s@),
        !is_hex_text(s@) ==> r is Err && r->Err_0 is Decode,
        is_hex_text(s@) && s@.len() != 12 ==> r == Err::<[u8; 6], MacError>(
            MacError::InvalidLength,
        ),
{
    match decode_hex(s) {
        Err(e) => Err(MacError::Decode(e)),
        Ok(v) => {
            if v.len() != 6 {
                Err(MacError::InvalidLength)
            } else {
                let mac: [u8; 6] = [v[0], v[1], v[2], v[3], v[4], v[5]];
                assert(mac@ =~= v@);
                Ok(mac)
            }
        },
    }
}

/// Encoding bytes as lowercase hex text and decoding that text gives the
/// bytes back, and the text is always accepted by the decoder.
pub proof fn lemma_hex_round_trip(b: Seq<u8>)
    ensures
        is_hex_text(hex_text(b)),
        hex_bytes(hex_text(b)) == b,
{
    let t = hex_text(b);
    assert forall|i: int| 0 <= i < t.len() implies is_hex_digit(#[trigger] t[i]) by {
        let v = if i % 2 == 0 { b[i / 2] as nat / 16 } else { b[i / 2] as nat % 16 };
        assert(v < 16);
    }
    assert forall|k: int| 0 <= k < b.len() implies #[trigger] hex_bytes(t)[k] == b[k] by {
        let x = b[k] as nat;
        assert(t[2 * k] == hex_digit_of(x / 16));
        assert(t[2 * k + 1] == hex_digit_of(x % 16));
        assert(hex_value(hex_digit_of(x / 16)) == x / 16);
        assert(hex_value(hex_digit_of(x % 16)) == x % 16);
        assert(16 * (x / 16) + x % 16 == x);
    }
    assert(hex_bytes(t) =~= b);
}

} // verus!
