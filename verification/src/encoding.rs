//! Byte-level encodings shared by the chain types: decimal and hexadecimal
//! ASCII, little-endian integers and the compact JSON fragments from which
//! the canonical block-header and transaction encodings are assembled.

use vstd::prelude::*;
use vstd::string::StringSliceAdditionalSpecFns;

verus! {

// ---------------------------------------------------------------------------
// Decimal
// ---------------------------------------------------------------------------

/// The ASCII code of the decimal digit `d` (for `d < 10`).
pub open spec fn ascii_digit(d: nat) -> u8 {
    (48 + d) as u8
}

/// The decimal representation of `n` in ASCII, without leading zeros.
pub open spec fn decimal_ascii(n: nat) -> Seq<u8>
    decreases n,
{
    if n < 10 {
        seq![ascii_digit(n)]
    } else {
        decimal_ascii(n / 10).push(ascii_digit(n % 10))
    }
}

/// The decimal representation of a signed integer: a leading `-` for
/// negative values, followed by the digits of the magnitude.
pub open spec fn signed_decimal_ascii(i: int) -> Seq<u8> {
    if i < 0 {
        seq![45u8] + decimal_ascii((-i) as nat)
    } else {
        decimal_ascii(i as nat)
    }
}

/// Appends the decimal digits of `n` to `out`.
pub fn push_decimal(out: &mut Vec<u8>, n: u64)
    ensures
        final(out)@ == old(out)@ + decimal_ascii(n as nat),
    decreases n,
{
    if n < 10 {
        out.push(48u8 + (n as u8));
        assert(final(out)@ =~= old(out)@ + decimal_ascii(n as nat));
    } else {
        let ghost before = out@;
        push_decimal(out, n / 10);
        out.push(48u8 + ((n % 10) as u8));
        assert(out@ =~= before + decimal_ascii(n as nat));
    }
}

/// Appends the decimal representation of the signed integer `i` to `out`.
pub fn push_signed_decimal(out: &mut Vec<u8>, i: i64)
    ensures
        final(out)@ == old(out)@ + signed_decimal_ascii(i as int),
{
    if i < 0 {
        let magnitude: u64 = (0i128 - (i as i128)) as u64;
        let ghost before = out@;
        out.push(45u8);
        push_decimal(out, magnitude);
        assert(out@ =~= before + signed_decimal_ascii(i as int));
    } else {
        push_decimal(out, i as u64);
    }
}

// ---------------------------------------------------------------------------
// Little-endian integers
// ---------------------------------------------------------------------------

/// The `width` low-order bytes of `value`, least significant first.
pub open spec fn le_bytes(value: nat, width: nat) -> Seq<u8>
    decreases width,
{
    if width == 0 {
        seq![]
    } else {
        seq![(value % 256) as u8] + le_bytes(value / 256, (width - 1) as nat)
    }
}

pub proof fn lemma_le_bytes_len(value: nat, width: nat)
    ensures
        le_bytes(value, width).len() == width,
    decreases width,
{
    if width > 0 {
        lemma_le_bytes_len(value / 256, (width - 1) as nat);
    }
}

/// Appends the `width` low-order bytes of `value`, least significant first.
pub fn push_le(out: &mut Vec<u8>, value: u128, width: usize)
    ensures
        final(out)@ == old(out)@ + le_bytes(value as nat, width as nat),
    decreases width,
{
    if width == 0 {
        assert(final(out)@ =~= old(out)@ + le_bytes(value as nat, width as nat));
    } else {
        let ghost before = out@;
        out.push((value % 256) as u8);
        push_le(out, value / 256, width - 1);
        assert(out@ =~= before + le_bytes(value as nat, width as nat));
    }
}

// ---------------------------------------------------------------------------
// Hexadecimal
// ---------------------------------------------------------------------------

/// The lowercase ASCII hex digit for the nibble `d` (for `d < 16`).
pub open spec fn hex_digit_lower(d: nat) -> u8 {
    if d < 10 {
        (48 + d) as u8
    } else {
        (87 + d) as u8
    }
}

/// Lowercase hex encoding of a byte sequence: two digits per byte, high
/// nibble first.
pub open spec fn hex_lower(bytes: Seq<u8>) -> Seq<u8>
    decreases bytes.len(),
{
    if bytes.len() == 0 {
        seq![]
    } else {
        hex_lower(bytes.drop_last()) + seq![
            hex_digit_lower((bytes.last() / 16) as nat),
            hex_digit_lower((bytes.last() % 16) as nat),
        ]
    }
}

/// The same encoding as characters, as a `String` holds it.
pub open spec fn hex_lower_chars(bytes: Seq<u8>) -> Seq<char> {
    hex_lower(bytes).map_values(|b: u8| b as char)
}

/// The value of one ASCII hex digit of either case, or `None` for any other
/// byte.
pub open spec fn hex_value(c: u8) -> Option<u8> {
    if 48 <= c <= 57 {
        Some((c - 48) as u8)
    } else if 97 <= c <= 102 {
        Some((c - 87) as u8)
    } else if 65 <= c <= 70 {
        Some((c - 55) as u8)
    } else {
        None
    }
}

/// Hex decoding: defined exactly when the input has an even length and
/// every byte is a hex digit of either case; each pair of digits gives one
/// byte, high nibble first.
pub open spec fn hex_decode(text: Seq<u8>) -> Option<Seq<u8>>
    decreases text.len(),
{
    if text.len() % 2 != 0 {
        None
    } else if text.len() == 0 {
        Some(seq![])
    } else {
        let n = text.len();
        match (hex_decode(text.subrange(0, n - 2)), hex_value(text[n - 2]), hex_value(text[n - 1])) {
            (Some(prefix), Some(high), Some(low)) => Some(prefix.push((high * 16 + low) as u8)),
            _ => None,
        }
    }
}

/// The message that the hex crate's decoding error displays for `text`,
/// for a text on which decoding fails.
pub uninterp spec fn hex_decode_error_message(text: Seq<u8>) -> Seq<char>;

pub proof fn lemma_hex_lower_len(bytes: Seq<u8>)
    ensures
        hex_lower(bytes).len() == 2 * bytes.len(),
    decreases bytes.len(),
{
    if bytes.len() > 0 {
        lemma_hex_lower_len(bytes.drop_last());
    }
}

pub proof fn lemma_hex_lower_ascii(bytes: Seq<u8>)
    ensures
        forall|i: int| 0 <= i < hex_lower(bytes).len() ==> #[trigger] hex_lower(bytes)[i] < 128,
    decreases bytes.len(),
{
    if bytes.len() > 0 {
        lemma_hex_lower_ascii(bytes.drop_last());
        lemma_hex_lower_len(bytes.drop_last());
        let prefix = hex_lower(bytes.drop_last());
        let tail = seq![
            hex_digit_lower((bytes.last() / 16) as nat),
            hex_digit_lower((bytes.last() % 16) as nat),
        ];
        assert forall|i: int| 0 <= i < hex_lower(bytes).len() implies #[trigger] hex_lower(bytes)[i]
            < 128 by {
            if i < prefix.len() {
                assert(hex_lower(bytes)[i] == prefix[i]);
            } else {
                assert(hex_lower(bytes)[i] == tail[i - prefix.len()]);
            }
        }
    }
}

/// Decoding undoes the lowercase encoding.
pub proof fn lemma_hex_roundtrip(bytes: Seq<u8>)
    ensures
        hex_decode(hex_lower(bytes)) == Some(bytes),
    decreases bytes.len(),
{
    lemma_hex_lower_len(bytes);
    if bytes.len() == 0 {
        assert(hex_lower(bytes).len() == 0);
    } else {
        let text = hex_lower(bytes);
        let n = text.len();
        let prefix = bytes.drop_last();
        lemma_hex_roundtrip(prefix);
        lemma_hex_lower_len(prefix);
        assert(text.subrange(0, n - 2) =~= hex_lower(prefix));
        let b = bytes.last();
        let hi = (b / 16) as nat;
        let lo = (b % 16) as nat;
        assert(text[n - 2] == hex_digit_lower(hi));
        assert(text[n - 1] == hex_digit_lower(lo));
        assert(hex_value(hex_digit_lower(hi)) == Some(hi as u8));
        assert(hex_value(hex_digit_lower(lo)) == Some(lo as u8));
        assert(((hi as u8) * 16 + (lo as u8)) as u8 == b);
        assert(prefix.push(b) =~= bytes);
    }
}

/// The hex encoding as bytes is the UTF-8 encoding of its characters.
pub proof fn lemma_hex_chars_utf8(bytes: Seq<u8>)
    ensures
        vstd::utf8::encode_utf8(hex_lower_chars(bytes)) == hex_lower(bytes),
{
    let chars = hex_lower_chars(bytes);
    lemma_hex_lower_ascii(bytes);
    assert(vstd::utf8::is_ascii_chars(chars)) by {
        assert forall|i| 0 <= i < chars.len() implies '\0' <= #[trigger] chars[i] <= '\u{7f}' by {
            assert(hex_lower(bytes)[i] < 128);
        }
    }
    vstd::utf8::is_ascii_chars_encode_utf8(chars);
    assert(vstd::utf8::encode_utf8(chars) =~= hex_lower(bytes));
}

/// Lowercase hex encoding, as the hex crate's `encode` computes it.
#[verifier::external_body]
pub(crate) fn hex_encode(data: &[u8]) -> (text: String)
    ensures
        text@ == hex_lower_chars(data@),
{
    hex::encode(data)
}

/// Hex decoding of either case, as the hex crate's `decode` computes it; on
/// failure, the error's display text.
#[verifier::external_body]
pub(crate) fn hex_decode_bytes(text: &[u8]) -> (res: Result<Vec<u8>, String>)
    ensures
        match res {
            Ok(bytes) => hex_decode(text@) == Some(bytes@),
            Err(message) => {
                &&& hex_decode(text@) is None
                &&& message@ == hex_decode_error_message(text@)
                &&& text@.len() % 2 != 0 ==> message@ == "Odd number of digits"@
            },
        },
{
    match hex::decode(text) {
        Ok(bytes) => Ok(bytes),
        Err(e) => Err(e.to_string()),
    }
}

/// Appends the lowercase hex encoding of `data` to `out`.
pub fn push_hex(out: &mut Vec<u8>, data: &[u8])
    ensures
        final(out)@ == old(out)@ + hex_lower(data@),
{
    let text = hex_encode(data);
    let bytes = text.as_str().as_bytes();
    proof {
        lemma_hex_chars_utf8(data@);
    }
    push_all(out, bytes);
}

/// Appends every byte of `data` to `out`.
pub fn push_all(out: &mut Vec<u8>, data: &[u8])
    ensures
        final(out)@ == old(out)@ + data@,
{
    let ghost before = out@;
    let mut i: usize = 0;
    while i < data.len()
        invariant
            i <= data@.len(),
            out@ == before + data@.subrange(0, i as int),
        decreases data@.len() - i,
    {
        out.push(data[i]);
        i = i + 1;
        assert(out@ =~= before + data@.subrange(0, i as int));
    }
    assert(data@.subrange(0, data@.len() as int) =~= data@);
}

/// The decimal representation of `n` as text, as std's `to_string` writes it.
#[verifier::external_body]
pub(crate) fn decimal_string(n: u64) -> (text: String)
    ensures
        text@ == decimal_ascii(n as nat).map_values(|b: u8| b as char),
{
    n.to_string()
}

// ---------------------------------------------------------------------------
// Compact JSON fragments
// ---------------------------------------------------------------------------

/// The comma-separated decimal items of a JSON array of bytes.
pub open spec fn json_byte_items(bytes: Seq<u8>) -> Seq<u8>
    decreases bytes.len(),
{
    if bytes.len() == 0 {
        seq![]
    } else if bytes.len() == 1 {
        decimal_ascii(bytes[0] as nat)
    } else {
        json_byte_items(bytes.drop_last()) + seq![44u8] + decimal_ascii(bytes.last() as nat)
    }
}

/// A byte sequence as a compact JSON array of numbers, e.g. `[1,2,255]`.
pub open spec fn json_byte_array(bytes: Seq<u8>) -> Seq<u8> {
    seq![91u8] + json_byte_items(bytes) + seq![93u8]
}

/// A byte sequence as a JSON string of lowercase hex digits.
pub open spec fn json_hex_string(bytes: Seq<u8>) -> Seq<u8> {
    seq![34u8] + hex_lower(bytes) + seq![34u8]
}

/// The JSON text `"name":` that opens a field of an object.
pub open spec fn json_key(name: Seq<u8>) -> Seq<u8> {
    seq![34u8] + name + seq![34u8, 58u8]
}

/// Appends `bytes` as a compact JSON array of numbers.
pub fn push_json_byte_array(out: &mut Vec<u8>, bytes: &[u8])
    ensures
        final(out)@ == old(out)@ + json_byte_array(bytes@),
{
    let ghost before = out@;
    out.push(91u8);
    let mut i: usize = 0;
    while i < bytes.len()
        invariant
            i <= bytes@.len(),
            out@ == before + seq![91u8] + json_byte_items(bytes@.subrange(0, i as int)),
        decreases bytes@.len() - i,
    {
        let ghost prev = out@;
        if i > 0 {
            out.push(44u8);
        }
        push_decimal(out, bytes[i] as u64);
        let ghost taken = bytes@.subrange(0, i + 1);
        assert(taken.drop_last() =~= bytes@.subrange(0, i as int));
        assert(out@ =~= before + seq![91u8] + json_byte_items(taken));
        i = i + 1;
    }
    assert(bytes@.subrange(0, bytes@.len() as int) =~= bytes@);
    out.push(93u8);
    assert(out@ =~= before + json_byte_array(bytes@));
}

/// Appends `bytes` as a JSON string of lowercase hex digits.
pub fn push_json_hex_string(out: &mut Vec<u8>, bytes: &[u8])
    ensures
        final(out)@ == old(out)@ + json_hex_string(bytes@),
{
    let ghost before = out@;
    out.push(34u8);
    push_hex(out, bytes);
    out.push(34u8);
    assert(out@ =~= before + json_hex_string(bytes@));
}

/// Appends the key `"name":` of an object field.
pub fn push_json_key(out: &mut Vec<u8>, name: &str)
    ensures
        final(out)@ == old(out)@ + json_key(name.spec_bytes()),
{
    let ghost before = out@;
    out.push(34u8);
    push_all(out, name.as_bytes());
    out.push(34u8);
    out.push(58u8);
    assert(out@ =~= before + json_key(name.spec_bytes()));
}

} // verus!
