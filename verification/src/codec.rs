use vstd::prelude::*;
use vstd::utf8::*;
use vstd::string::StringSliceAdditionalSpecFns;

verus! {

#[verifier::external_type_specification]
#[verifier::external_body]
pub struct ExDecodeError(base64::DecodeError);

/// The URL-safe Base64 alphabet, in the order of the six-bit values it
/// stands for: `A`-`Z`, `a`-`z`, `0`-`9`, `-`, `_`.
pub open spec fn url_safe_alphabet() -> Seq<char> {
    seq![
        'A', 'B', 'C', 'D', 'E', 'F', 'G', 'H', 'I', 'J', 'K', 'L', 'M',
        'N', 'O', 'P', 'Q', 'R', 'S', 'T', 'U', 'V', 'W', 'X', 'Y', 'Z',
        'a', 'b', 'c', 'd', 'e', 'f', 'g', 'h', 'i', 'j', 'k', 'l', 'm',
        'n', 'o', 'p', 'q', 'r', 's', 't', 'u', 'v', 'w', 'x', 'y', 'z',
        '0', '1', '2', '3', '4', '5', '6', '7', '8', '9', '-', '_',
    ]
}

/// The character that stands for the six-bit value `v`.
pub open spec fn url_safe_symbol(v: u8) -> char {
    url_safe_alphabet()[v as int]
}

/// The unpadded URL-safe Base64 text of `bytes` (RFC 4648, section 5): each
/// group of three bytes becomes four characters, a final group of one byte
/// two characters, and a final group of two bytes three characters.
pub open spec fn url_safe_no_pad_encoding(bytes: Seq<u8>) -> Seq<char>
    decreases bytes.len(),
{
    if bytes.len() == 0 {
        Seq::empty()
    } else if bytes.len() == 1 {
        seq![url_safe_symbol(bytes[0] >> 2), url_safe_symbol((bytes[0] << 4) & 63)]
    } else if bytes.len() == 2 {
        seq![
            url_safe_symbol(bytes[0] >> 2),
            url_safe_symbol(((bytes[0] << 4) | (bytes[1] >> 4)) & 63),
            url_safe_symbol((bytes[1] << 2) & 63),
        ]
    } else {
        seq![
            url_safe_symbol(bytes[0] >> 2),
            url_safe_symbol(((bytes[0] << 4) | (bytes[1] >> 4)) & 63),
            url_safe_symbol(((bytes[1] << 2) | (bytes[2] >> 6)) & 63),
            url_safe_symbol(bytes[2] & 63),
        ] + url_safe_no_pad_encoding(bytes.skip(3))
    }
}

/// The six-bit values cut out of bytes are below 64.
proof fn lemma_sextets_below_64(x: u8, y: u8)
    by (bit_vector)
    ensures
        (x >> 2) < 64,
        ((x << 4) & 63) < 64,
        (((x << 4) | (y >> 4)) & 63) < 64,
        ((x << 2) & 63) < 64,
        (((x << 2) | (y >> 6)) & 63) < 64,
        (x & 63) < 64,
{
}

/// The unpadded Base64 text of `bytes` has `encoded_len` characters, all
/// from the URL-safe alphabet (so in particular no `=`).
pub proof fn lemma_encoding_shape(bytes: Seq<u8>)
    ensures
        url_safe_no_pad_encoding(bytes).len() == encoded_len(bytes.len()),
        forall|i: int|
            0 <= i < url_safe_no_pad_encoding(bytes).len() ==> url_safe_alphabet().contains(
                #[trigger] url_safe_no_pad_encoding(bytes)[i],
            ),
    decreases bytes.len(),
{
    if bytes.len() >= 1 {
        lemma_sextets_below_64(bytes[0], if bytes.len() >= 2 { bytes[1] } else { 0 });
    }
    if bytes.len() >= 2 {
        lemma_sextets_below_64(bytes[1], if bytes.len() >= 3 { bytes[2] } else { 0 });
    }
    if bytes.len() >= 3 {
        lemma_sextets_below_64(bytes[2], 0);
    }
    let alphabet = url_safe_alphabet();
    assert(alphabet.len() == 64);
    let enc = url_safe_no_pad_encoding(bytes);
    if bytes.len() >= 3 {
        lemma_encoding_shape(bytes.skip(3));
    }
    assert forall|i: int| 0 <= i < enc.len() implies alphabet.contains(#[trigger] enc[i]) by {
        if i < 4 && bytes.len() >= 3 {
        } else if bytes.len() >= 3 {
            assert(enc[i] == url_safe_no_pad_encoding(bytes.skip(3))[i - 4]);
        }
        assert(exists|j: int| 0 <= j < alphabet.len() && alphabet[j] == enc[i]);
    }
}

/// What `base64::decode_config` gives back for `text` under the
/// `URL_SAFE_NO_PAD` configuration: `Some` of the decoded bytes when it
/// succeeds, `None` when it returns an error.
pub uninterp spec fn url_safe_no_pad_decoding(text: Seq<char>) -> Option<Seq<u8>>;

/// The length of the unpadded Base64 text of `n` bytes: four characters per
/// complete group of three bytes, and two or three for a final partial group.
pub open spec fn encoded_len(n: nat) -> int {
    4 * (n / 3) + if n % 3 == 0 {
        0int
    } else if n % 3 == 1 {
        2int
    } else {
        3int
    }
}

/// Whether the unpadded Base64 text of `n` bytes has a length that fits in
/// `usize`.
pub open spec fn encoding_fits(n: nat) -> bool {
    encoded_len(n) <= usize::MAX
}

/// The unpadded Base64 text of `n` bytes fits in `usize` exactly when four
/// characters per complete group of three bytes, plus two or three for a
/// final partial group, is at most `usize::MAX`.
pub proof fn lemma_encoding_fits_by_arithmetic(n: nat)
    ensures
        encoding_fits(n) <==> 4 * (n / 3) + (if n % 3 == 0 {
            0int
        } else if n % 3 == 1 {
            2int
        } else {
            3int
        }) <= usize::MAX,
        encoded_len(n) == 4 * (n / 3) + (if n % 3 == 0 {
            0int
        } else if n % 3 == 1 {
            2int
        } else {
            3int
        }),
{
}

/// Decides `encoding_fits(n)`.
pub fn encoding_fits_usize(n: usize) -> (fits: bool)
    ensures
        fits == encoding_fits(n as nat),
        fits == (4 * (n / 3) + (if n % 3 == 0 {
            0int
        } else if n % 3 == 1 {
            2int
        } else {
            3int
        }) <= usize::MAX),
{
    let rest: usize = if n % 3 == 0 {
        0
    } else if n % 3 == 1 {
        2
    } else {
        3
    };
    n / 3 <= (usize::MAX - rest) / 4
}

/// Calls `base64::encode_config(bytes, URL_SAFE_NO_PAD)`. The contract claims
/// that the text is the unpadded URL-safe Base64 text of the bytes, as
/// `url_safe_no_pad_encoding` spells it out after the crate's table and its
/// loop over groups of three bytes. The function panics
/// when the encoded length overflows `usize`; the bound in `requires` rules
/// that out.
#[verifier::external_body]
pub(crate) fn encode_url_safe_no_pad(bytes: &[u8]) -> (text: String)
    requires
        encoding_fits(bytes@.len()),
    ensures
        text@ == url_safe_no_pad_encoding(bytes@),
{
    base64::encode_config(bytes, base64::URL_SAFE_NO_PAD)
}

/// Calls `base64::decode_config(text, URL_SAFE_NO_PAD)`. The contract claims
/// that the outcome is the named decoding of the text, and that the text that
/// `encode_config` produced for some bytes decodes to those bytes: the crate
/// documents that unpadded input is accepted and tests this round trip for the
/// unpadded configurations. The function panics when `text.len() + 3` or
/// `text.len() + 7` overflows; the bound in `requires` rules that out.
#[verifier::external_body]
pub(crate) fn decode_url_safe_no_pad(text: &str) -> (r: Result<Vec<u8>, base64::DecodeError>)
    requires
        text.spec_bytes().len() <= usize::MAX - 7,
    ensures
        r is Ok <==> url_safe_no_pad_decoding(text@) is Some,
        r matches Ok(bytes) ==> url_safe_no_pad_decoding(text@) == Some(bytes@),
        r is Err ==> forall|b: Seq<u8>| #[trigger] url_safe_no_pad_encoding(b) != text@,
        r matches Ok(bytes) ==> forall|b: Seq<u8>|
            #[trigger] url_safe_no_pad_encoding(b) == text@ ==> bytes@ == b,
{
    base64::decode_config(text, base64::URL_SAFE_NO_PAD)
}

/// Calls `String::from_utf8`: the bytes become a string exactly when they are
/// valid UTF-8, and the string holds the characters they encode.
#[verifier::external_body]
pub(crate) fn string_from_utf8(bytes: Vec<u8>) -> (r: Option<String>)
    ensures
        r is Some <==> valid_utf8(bytes@),
        r matches Some(s) ==> s@ == decode_utf8(bytes@),
{
    String::from_utf8(bytes).ok()
}

/// Why a text could not be turned back into bytes.
#[derive(Debug, Clone, Copy, PartialEq, Eq, Structural)]
pub enum StateError {
    /// The text is not URL-safe Base64.
    NotBase64,
}

/// Encodes an author's exported state for transport: URL-safe Base64
/// without padding, so only `A`-`Z`, `a`-`z`, `0`-`9`, `-` and `_`.
pub fn encode_state(exported: &[u8]) -> (state: String)
    requires
        encoding_fits(exported@.len()),
    ensures
        state@ == url_safe_no_pad_encoding(exported@),
        state@.len() == encoded_len(exported@.len()),
        forall|i: int| 0 <= i < state@.len() ==> url_safe_alphabet().contains(#[trigger] state@[i]),
{
    proof {
        lemma_encoding_shape(exported@);
    }
    encode_url_safe_no_pad(exported)
}

/// Decodes an author's state that `encode_state` produced. Decoding
/// gives back exactly the bytes that were encoded.
pub fn decode_state(state: &str) -> (r: Result<Vec<u8>, StateError>)
    requires
        state.spec_bytes().len() <= usize::MAX - 7,
    ensures
        r is Ok <==> url_safe_no_pad_decoding(state@) is Some,
        r matches Ok(bytes) ==> url_safe_no_pad_decoding(state@) == Some(bytes@),
        forall|exported: Seq<u8>|
            url_safe_no_pad_encoding(exported) == state@ ==> (r matches Ok(bytes) && bytes@
                == exported),
{
    match decode_url_safe_no_pad(state) {
        Ok(bytes) => Ok(bytes),
        Err(_) => Err(StateError::NotBase64),
    }
}

} // verus!
