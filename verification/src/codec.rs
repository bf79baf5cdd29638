//! Transform functions: the hexadecimal payload codec. `encode` turns each
//! byte into two lowercase hexadecimal digit characters; `decode` is its
//! inverse on even-length text made of hexadecimal digits. Malformed decode
//! input is excluded by contract; [`try_decode`] is the checked entry that
//! callers use when the input is not known to be well formed.

use vstd::prelude::*;

verus! {

/// True of the byte values that are hexadecimal digit characters:
/// `0-9`, `a-f` and `A-F`.
pub open spec fn is_hex_digit(c: u8) -> bool {
    (48 <= c <= 57) || (97 <= c <= 102) || (65 <= c <= 70)
}

/// True of the byte values `encode` emits: `0-9` and lowercase `a-f` only.
pub open spec fn is_lower_hex_digit(c: u8) -> bool {
    (48 <= c <= 57) || (97 <= c <= 102)
}

/// The numeric value of a hexadecimal digit character.
pub open spec fn hex_value(c: u8) -> u8 {
    if 48 <= c <= 57 {
        (c - 48) as u8
    } else if 97 <= c <= 102 {
        (c - 87) as u8
    } else {
        (c - 55) as u8
    }
}

/// The lowercase hexadecimal digit character for a value below 16.
pub open spec fn lower_hex_digit(v: u8) -> u8 {
    if v < 10 {
        (48 + v) as u8
    } else {
        (87 + v) as u8
    }
}

/// Input `decode` accepts: even length, hexadecimal digit characters only.
pub open spec fn valid_hex_input(s: Seq<u8>) -> bool {
    &&& s.len() % 2 == 0
    &&& forall|i: int| 0 <= i < s.len() ==> is_hex_digit(#[trigger] s[i])
}

/// The hexadecimal encoding of a byte sequence: twice as long, each byte
/// spelled as its high digit followed by its low digit, in lowercase.
pub open spec fn hex_encoding(b: Seq<u8>) -> Seq<u8> {
    Seq::new(
        2 * b.len(),
        |i: int|
            if i % 2 == 0 {
                lower_hex_digit(b[i / 2] / 16)
            } else {
                lower_hex_digit(b[i / 2] % 16)
            },
    )
}

/// The byte sequence a hexadecimal text stands for: half as long, each byte
/// assembled from a pair of digit characters.
pub open spec fn hex_decoding(s: Seq<u8>) -> Seq<u8> {
    Seq::new(s.len() / 2, |i: int| (16 * hex_value(s[2 * i]) + hex_value(s[2 * i + 1])) as u8)
}

/// The lowercase digit character for a value below 16.
fn lower_hex_digit_char(v: u8) -> (c: u8)
    requires
        v < 16,
    ensures
        c == lower_hex_digit(v),
{
    if v < 10 {
        48 + v
    } else {
        87 + v
    }
}

/// Whether one byte is a hexadecimal digit character.
fn is_hex_digit_char(c: u8) -> (r: bool)
    ensures
        r == is_hex_digit(c),
{
    (48 <= c && c <= 57) || (97 <= c && c <= 102) || (65 <= c && c <= 70)
}

/// The numeric value of one hexadecimal digit character.
fn hex_value_of(c: u8) -> (v: u8)
    requires
        is_hex_digit(c),
    ensures
        v == hex_value(c),
        v < 16,
{
    if 48 <= c && c <= 57 {
        c - 48
    } else if 97 <= c && c <= 102 {
        c - 87
    } else {
        c - 55
    }
}

/// Encodes a byte buffer as lowercase hexadecimal text; the output holds two
/// digit characters for every input byte.
pub fn encode(input: &[u8]) -> (output: Vec<u8>)
    ensures
        output@ == hex_encoding(input@),
{
    let mut output: Vec<u8> = Vec::new();
    let mut i: usize = 0;
    while i < input.len()
        invariant
            i <= input@.len(),
            output@.len() == 2 * i,
            forall|j: int| 0 <= j < 2 * i ==> output@[j] == hex_encoding(input@)[j],
        decreases input@.len() - i,
    {
        let b = input[i];
        output.push(lower_hex_digit_char(b / 16));
        output.push(lower_hex_digit_char(b % 16));
        i = i + 1;
    }
    proof {
        assert(output@ =~= hex_encoding(input@));
    }
    output
}

/// Decodes even-length hexadecimal text back into the bytes it spells. The
/// contract admits only well-formed input; callers that cannot establish it
/// go through [`try_decode`].
pub fn decode(input: &[u8]) -> (output: Vec<u8>)
    requires
        valid_hex_input(input@),
    ensures
        output@ == hex_decoding(input@),
{
    let mut output: Vec<u8> = Vec::new();
    let mut i: usize = 0;
    while i < input.len()
        invariant
            valid_hex_input(input@),
            i % 2 == 0,
            i <= input@.len(),
            2 * output@.len() == i,
            forall|j: int| 0 <= j < output@.len() ==> output@[j] == hex_decoding(input@)[j],
        decreases input@.len() - i,
    {
        assert(i + 1 < input@.len());
        let hi = hex_value_of(input[i]);
        let lo = hex_value_of(input[i + 1]);
        output.push(16 * hi + lo);
        i = i + 2;
    }
    proof {
        assert(output@ =~= hex_decoding(input@));
    }
    output
}

/// Whether a buffer is acceptable `decode` input: even length, hexadecimal
/// digit characters only.
pub fn is_valid_hex(input: &[u8]) -> (r: bool)
    ensures
        r == valid_hex_input(input@),
{
    if input.len() % 2 != 0 {
        return false;
    }
    let mut i: usize = 0;
    while i < input.len()
        invariant
            i <= input@.len(),
            input@.len() % 2 == 0,
            forall|j: int| 0 <= j < i ==> is_hex_digit(#[trigger] input@[j]),
        decreases input@.len() - i,
    {
        if !is_hex_digit_char(input[i]) {
            return false;
        }
        i = i + 1;
    }
    true
}

/// Checked decoding: `Some` with the decoded bytes exactly when the input is
/// even-length hexadecimal text, `None` otherwise. Malformed input never
/// yields a buffer.
pub fn try_decode(input: &[u8]) -> (r: Option<Vec<u8>>)
    ensures
        match r {
            Some(output) => valid_hex_input(input@) && output@ == hex_decoding(input@),
            None => !valid_hex_input(input@),
        },
{
    if is_valid_hex(input) {
        Some(decode(input))
    } else {
        None
    }
}

/// The encoding of any byte sequence is exactly twice as long.
pub proof fn lemma_encoding_length(b: Seq<u8>)
    ensures
        hex_encoding(b).len() == 2 * b.len(),
{
}

/// The decoding of valid hexadecimal text is exactly half as long.
pub proof fn lemma_decoding_length(h: Seq<u8>)
    requires
        valid_hex_input(h),
    ensures
        hex_decoding(h).len() == h.len() / 2,
{
}

/// Every character the encoder emits is a lowercase hexadecimal digit.
pub proof fn lemma_encoding_lowercase(b: Seq<u8>)
    ensures
        forall|i: int|
            0 <= i < hex_encoding(b).len() ==> is_lower_hex_digit(#[trigger] hex_encoding(b)[i]),
{
}

/// A digit character built from a value below 16 is lowercase and reads back
/// as that value.
pub proof fn lemma_digit_roundtrip(v: u8)
    requires
        v < 16,
    ensures
        is_hex_digit(lower_hex_digit(v)),
        is_lower_hex_digit(lower_hex_digit(v)),
        hex_value(lower_hex_digit(v)) == v,
{
}

/// Decoding inverts encoding: the encoding of any byte sequence is valid
/// decoder input, and decoding it gives the original bytes back.
pub proof fn lemma_decode_encode_roundtrip(b: Seq<u8>)
    ensures
        valid_hex_input(hex_encoding(b)),
        hex_decoding(hex_encoding(b)) == b,
{
    let e = hex_encoding(b);
    assert forall|i: int| 0 <= i < e.len() implies is_hex_digit(#[trigger] e[i]) by {
        if i % 2 == 0 {
            lemma_digit_roundtrip(b[i / 2] / 16);
        } else {
            lemma_digit_roundtrip(b[i / 2] % 16);
        }
    }
    assert forall|i: int| 0 <= i < b.len() implies hex_decoding(e)[i] == b[i] by {
        assert(e[2 * i] == lower_hex_digit(b[i] / 16));
        assert(e[2 * i + 1] == lower_hex_digit(b[i] % 16));
        lemma_digit_roundtrip(b[i] / 16);
        lemma_digit_roundtrip(b[i] % 16);
        assert(16 * (b[i] / 16) + b[i] % 16 == b[i]) by (nonlinear_arith);
    }
    assert(hex_decoding(e) =~= b);
}

} // verus!
