//! Record keys: a record is stored under the lower-case hex SHA-256 digest
//! of its serialized bytes, and keys typed in by hand are hex-decoded.
use vstd::prelude::*;
use crate::strings::push_char;
use sha2::Digest;
use vstd::string::StringSliceAdditionalSpecFns;

verus! {

/// The SHA-256 digest of `data`.
pub uninterp spec fn spec_sha256(data: Seq<u8>) -> Seq<u8>;

/// `sha2::Sha256`: hashing `data` in one `update` and finalizing gives its
/// SHA-256 digest, which is 32 bytes long. Nothing more is claimed of the
/// digest's value.
#[verifier::external_body]
fn sha256_digest(data: &[u8]) -> (r: Vec<u8>)
    ensures
        r@ == spec_sha256(data@),
        r@.len() == 32,
{
    let mut hasher = sha2::Sha256::new();
    hasher.update(data);
    hasher.finalize().to_vec()
}

/// The lower-case hex digit for `d` (0 to 15).
pub open spec fn hex_digit(d: int) -> char {
    if d < 10 { ('0' as int + d) as char } else { ('a' as int + d - 10) as char }
}

/// The lower-case hex notation of `bytes`, two digits per byte.
pub open spec fn hex_lower(bytes: Seq<u8>) -> Seq<char>
    decreases bytes.len(),
{
    if bytes.len() == 0 {
        Seq::empty()
    } else {
        hex_lower(bytes.drop_last()) + seq![hex_digit(bytes.last() as int / 16), hex_digit(bytes.last() as int % 16)]
    }
}

fn hex_digit_char(d: u8) -> (c: char)
    requires
        d < 16,
    ensures
        c == hex_digit(d as int),
{
    if d < 10 {
        ((48u8 + d) as char)
    } else {
        ((87u8 + d) as char)
    }
}

/// `format!("{:x}", digest)`: the lower-case hex notation of `bytes`.
pub fn to_hex_lower(bytes: &[u8]) -> (r: String)
    ensures
        r@ == hex_lower(bytes@),
{
    let mut s = String::new();
    let mut i: usize = 0;
    while i < bytes.len()
        invariant
            i <= bytes@.len(),
            s@ == hex_lower(bytes@.take(i as int)),
        decreases bytes@.len() - i,
    {
        let b = bytes[i];
        push_char(&mut s, hex_digit_char(b / 16));
        push_char(&mut s, hex_digit_char(b % 16));
        proof {
            assert(bytes@.take(i + 1).drop_last() =~= bytes@.take(i as int));
            assert(bytes@.take(i + 1).last() == b);
            assert(s@ =~= hex_lower(bytes@.take(i + 1)));
        }
        i = i + 1;
    }
    assert(bytes@.take(bytes@.len() as int) =~= bytes@);
    s
}

/// The key a record is stored under: the lower-case hex SHA-256 digest of
/// its serialized bytes.
pub fn hash(vector: Vec<u8>) -> (r: String)
    ensures
        r@ == hex_lower(spec_sha256(vector@)),
        r@.len() == 64,
{
    let digest = sha256_digest(vector.as_slice());
    let s = to_hex_lower(digest.as_slice());
    proof { lemma_hex_lower_len(digest@); }
    s
}

proof fn lemma_hex_lower_len(bytes: Seq<u8>)
    ensures
        hex_lower(bytes).len() == 2 * bytes.len(),
    decreases bytes.len(),
{
    if bytes.len() > 0 {
        lemma_hex_lower_len(bytes.drop_last());
    }
}

/// Why a hex string did not decode.
#[derive(Debug, Clone, Copy, PartialEq, Eq, Structural)]
pub enum HexError {
    /// The character at byte position `index` is not a hex digit.
    InvalidHexCharacter { c: char, index: usize },
    /// The string has an odd number of bytes.
    OddLength,
    /// The string does not fit the expected length.
    InvalidStringLength,
}

/// The value of a hex digit (either case), if the byte is one.
pub open spec fn hex_value(b: u8) -> Option<u8> {
    if 48 <= b <= 57 {
        Some((b - 48) as u8)
    } else if 97 <= b <= 102 {
        Some((b - 87) as u8)
    } else if 65 <= b <= 70 {
        Some((b - 55) as u8)
    } else {
        None
    }
}

/// `hex::decode`: an odd length is refused; otherwise the first byte that is
/// not a hex digit is reported with its position; otherwise each pair of
/// digits gives one byte, high digit first.
pub open spec fn spec_hex_decode(data: Seq<u8>) -> Result<Seq<u8>, HexError> {
    if data.len() % 2 != 0 {
        Err(HexError::OddLength)
    } else if exists|i: int| 0 <= i < data.len() && hex_value(#[trigger] data[i]) is None {
        let i = choose|i: int| 0 <= i < data.len() && hex_value(data[i]) is None
            && forall|j: int| 0 <= j < i ==> hex_value(#[trigger] data[j]) is Some;
        Err(HexError::InvalidHexCharacter { c: data[i] as char, index: i as usize })
    } else {
        Ok(Seq::new((data.len() / 2) as nat, |k: int|
            (hex_value(data[2 * k]).unwrap() * 16 + hex_value(data[2 * k + 1]).unwrap()) as u8))
    }
}

/// `hex::decode`, on the bytes of a string: as `spec_hex_decode` says
/// (the crate's `FromHex for Vec<u8>` checks the length, then reads the
/// digits in pairs, failing on the first byte that is not a digit).
#[verifier::external_body]
fn hex_decode(data: &[u8]) -> (r: Result<Vec<u8>, HexError>)
    ensures
        match (r, spec_hex_decode(data@)) {
            (Ok(v), Ok(w)) => v@ == w,
            (Err(e), Err(f)) => e == f,
            _ => false,
        },
{
    match hex::decode(data) {
        Ok(v) => Ok(v),
        Err(hex::FromHexError::InvalidHexCharacter { c, index }) => Err(HexError::InvalidHexCharacter { c, index }),
        Err(hex::FromHexError::OddLength) => Err(HexError::OddLength),
        Err(hex::FromHexError::InvalidStringLength) => Err(HexError::InvalidStringLength),
    }
}

/// The bytes of a key typed in as hex.
pub fn decode_key(input: &str) -> (r: Result<Vec<u8>, HexError>)
    ensures
        match (r, spec_hex_decode(input.spec_bytes())) {
            (Ok(v), Ok(w)) => v@ == w,
            (Err(e), Err(f)) => e == f,
            _ => false,
        },
{
    hex_decode(input.as_bytes())
}

/// The bytes of an ASCII text, one per character.
pub open spec fn ascii_bytes(s: Seq<char>) -> Seq<u8> {
    s.map_values(|c: char| c as u8)
}

/// A record's key decodes back to the digest it was written from: the hex
/// notation of any bytes, read back as hex, gives those bytes.
pub proof fn law_key_decodes_to_digest(bytes: Seq<u8>)
    ensures
        spec_hex_decode(ascii_bytes(hex_lower(bytes))) == Ok::<Seq<u8>, HexError>(bytes),
{
    let h = ascii_bytes(hex_lower(bytes));
    lemma_hex_lower_digits(bytes);
    assert(h.len() == 2 * bytes.len());
    assert(h.len() % 2 == 0);
    assert(!exists|i: int| 0 <= i < h.len() && hex_value(#[trigger] h[i]) is None) by {
        assert forall|i: int| 0 <= i < h.len() implies hex_value(#[trigger] h[i]) is Some by {
            assert(is_lower_hex(hex_lower(bytes)[i]));
        }
    }
    let decoded = Seq::new((h.len() / 2) as nat, |k: int|
        (hex_value(h[2 * k]).unwrap() * 16 + hex_value(h[2 * k + 1]).unwrap()) as u8);
    assert(decoded =~= bytes) by {
        assert forall|k: int| 0 <= k < bytes.len() implies decoded[k] == bytes[k] by {
            lemma_digit_value(bytes[k] as int / 16);
            lemma_digit_value(bytes[k] as int % 16);
            assert(hex_lower(bytes)[2 * k] == hex_digit(bytes[k] as int / 16));
            assert(h[2 * k] == hex_digit(bytes[k] as int / 16) as u8);
            assert(h[2 * k + 1] == hex_digit(bytes[k] as int % 16) as u8);
        }
    }
}

/// A lower-case hex digit.
pub open spec fn is_lower_hex(c: char) -> bool {
    ('0' <= c <= '9') || ('a' <= c <= 'f')
}

/// A hex digit reads back as its value.
proof fn lemma_digit_value(d: int)
    requires
        0 <= d < 16,
    ensures
        hex_value(hex_digit(d) as u8) == Some(d as u8),
        is_lower_hex(hex_digit(d)),
{
}

/// Byte `k` of `bytes` is spelled by characters `2k` and `2k + 1` of its
/// hex notation, and every character of it is a hex digit.
proof fn lemma_hex_lower_digits(bytes: Seq<u8>)
    ensures
        hex_lower(bytes).len() == 2 * bytes.len(),
        forall|k: int| 0 <= k < bytes.len() ==> {
            &&& #[trigger] hex_lower(bytes)[2 * k] == hex_digit(bytes[k] as int / 16)
            &&& hex_lower(bytes)[2 * k + 1] == hex_digit(bytes[k] as int % 16)
        },
        forall|i: int| 0 <= i < hex_lower(bytes).len() ==> is_lower_hex(#[trigger] hex_lower(bytes)[i]),
    decreases bytes.len(),
{
    lemma_hex_lower_len(bytes);
    if bytes.len() > 0 {
        let init = bytes.drop_last();
        let b = bytes.last() as int;
        lemma_hex_lower_digits(init);
        lemma_digit_value(b / 16);
        lemma_digit_value(b % 16);
        assert forall|k: int| 0 <= k < bytes.len() implies {
            &&& #[trigger] hex_lower(bytes)[2 * k] == hex_digit(bytes[k] as int / 16)
            &&& hex_lower(bytes)[2 * k + 1] == hex_digit(bytes[k] as int % 16)
        } by {
            if k < init.len() {
                assert(hex_lower(init)[2 * k] == hex_digit(init[k] as int / 16));
                assert(init[k] == bytes[k]);
            }
        }
        assert forall|i: int| 0 <= i < hex_lower(bytes).len() implies is_lower_hex(#[trigger] hex_lower(bytes)[i]) by {
            if i < hex_lower(init).len() {
                assert(hex_lower(bytes)[i] == hex_lower(init)[i]);
            }
        }
    }
}

} // verus!
