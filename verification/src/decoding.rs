//! Turning the bytes of a script file into text: UTF-8 where the bytes are UTF-8, else the
//! encoding that `chardet` detects, else UTF-8 with replacement characters.

use encoding_rs::Encoding;
use vstd::prelude::*;
use vstd::utf8::{decode_utf8, encode_utf8, valid_utf8};

verus! {

/// The name of the character set that `chardet::detect` reports for some bytes.
pub uninterp spec fn detected_charset(bytes: Seq<u8>) -> Seq<char>;

/// Whether `encoding_rs::Encoding::for_label` knows a label.
pub uninterp spec fn label_names_encoding(label: Seq<u8>) -> bool;

/// The text that `encoding_rs::Encoding::decode` gives for some bytes, in the encoding that a
/// label names.
pub uninterp spec fn decoded_as(label: Seq<u8>, bytes: Seq<u8>) -> Seq<char>;

/// The text that `String::from_utf8_lossy` gives for some bytes.
pub uninterp spec fn lossy_text(bytes: Seq<u8>) -> Seq<char>;

/// `std::str::from_utf8`, made into an owned `String`: the text that the bytes encode when they
/// are UTF-8, and nothing otherwise.
#[verifier::external_body]
fn utf8_text(bytes: &[u8]) -> (r: Option<String>)
    ensures
        r is Some <==> valid_utf8(bytes@),
        r matches Some(s) ==> s@ == decode_utf8(bytes@),
{
    std::str::from_utf8(bytes).ok().map(str::to_owned)
}

/// Bytes on which `chardet`'s detector ends in its escape-ASCII state: an escape byte `0x1B`
/// occurs, and every byte at or above `0x80` is `0xA0`, which the detector does not count as a
/// high byte.
pub open spec fn ends_in_escape_state(bytes: Seq<u8>) -> bool {
    &&& exists|i: int| 0 <= i < bytes.len() && bytes[i] == 0x1B
    &&& forall|j: int| 0 <= j < bytes.len() ==> bytes[j] < 0x80 || bytes[j] == 0xA0
}

/// `chardet::detect`, of whose result only the name of the character set is kept. The
/// detector is a fixed procedure over the bytes, so the name depends on them alone; it is
/// named [`detected_charset`]. The confidence and the language it also reports are dropped.
/// Bytes on which the detector ends in its escape-ASCII state are left out: `close` then
/// reaches `unreachable!` unless the escape prober recognised an escape sequence, and which
/// sequences it recognises is not stated here.
#[verifier::external_body]
fn detect_charset(bytes: &[u8]) -> (r: String)
    requires
        !ends_in_escape_state(bytes@),
    ensures
        r@ == detected_charset(bytes@),
{
    chardet::detect(bytes).0
}

/// Does the detector end in its escape-ASCII state on these bytes?
fn escape_state_input(bytes: &[u8]) -> (r: bool)
    ensures
        r == ends_in_escape_state(bytes@),
{
    let mut seen_escape = false;
    let mut i: usize = 0;
    while i < bytes.len()
        invariant
            i <= bytes@.len(),
            seen_escape <==> exists|k: int| 0 <= k < i && bytes@[k] == 0x1B,
            forall|j: int| 0 <= j < i ==> bytes@[j] < 0x80 || bytes@[j] == 0xA0,
        decreases bytes@.len() - i,
    {
        let b = bytes[i];
        if b >= 0x80 && b != 0xA0 {
            return false;
        }
        if b == 0x1B {
            seen_escape = true;
        }
        i = i + 1;
    }
    seen_escape
}

/// `encoding_rs::Encoding::for_label`, then `Encoding::decode` with the encoding found. The
/// label is known or not as [`label_names_encoding`] says, and the text, which `decode` builds
/// after taking off a byte order mark and with replacement characters for malformed input, is
/// named [`decoded_as`]; both depend on the arguments alone.
#[verifier::external_body]
fn decode_labelled(label: &[u8], bytes: &[u8]) -> (r: Option<String>)
    ensures
        r is Some <==> label_names_encoding(label@),
        r matches Some(s) ==> s@ == decoded_as(label@, bytes@),
{
    match Encoding::for_label(label) {
        Some(encoding) => Some(encoding.decode(bytes).0.into_owned()),
        None => None,
    }
}

/// `String::from_utf8_lossy`, made into an owned `String`; the text is named [`lossy_text`].
#[verifier::external_body]
fn utf8_lossy(bytes: &[u8]) -> (r: String)
    ensures
        r@ == lossy_text(bytes@),
{
    String::from_utf8_lossy(bytes).into_owned()
}

/// The text of a file: the UTF-8 text when the bytes are UTF-8; else, unless the detector would
/// end in its escape-ASCII state, the bytes decoded in the character set that the detector
/// names, when that name is a label the decoder knows; else the bytes read as UTF-8 with
/// replacement characters.
pub open spec fn file_text(bytes: Seq<u8>) -> Seq<char> {
    if valid_utf8(bytes) {
        decode_utf8(bytes)
    } else if ends_in_escape_state(bytes) {
        lossy_text(bytes)
    } else {
        let label = encode_utf8(detected_charset(bytes));
        if label_names_encoding(label) {
            decoded_as(label, bytes)
        } else {
            lossy_text(bytes)
        }
    }
}

/// Decode the bytes of a script file, guessing the encoding where they are not UTF-8.
pub fn to_chardet_string(bytes: &[u8]) -> (r: String)
    ensures
        r@ == file_text(bytes@),
{
    match utf8_text(bytes) {
        Some(text) => text,
        None => {
            if escape_state_input(bytes) {
                return utf8_lossy(bytes);
            }
            let charset = detect_charset(bytes);
            match decode_labelled(charset.as_str().as_bytes(), bytes) {
                Some(text) => text,
                None => utf8_lossy(bytes),
            }
        },
    }
}

} // verus!
