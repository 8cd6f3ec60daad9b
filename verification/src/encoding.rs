//! Key material as text: written in one form of base64, read in any of four.

use vstd::prelude::*;

verus! {

/// `base64::DecodeError`, why a text is not base64 of some form.
#[verifier::external_type_specification]
#[verifier::external_body]
pub struct ExDecodeError(base64::DecodeError);

/// The text that a general purpose engine of `base64` writes for `bytes`: the engine of the URL safe
/// alphabet or of the standard one, which pads or does not.
pub uninterp spec fn base64_written(url_safe: bool, padded: bool, bytes: Seq<u8>) -> Seq<char>;

/// The bytes that a general purpose engine of `base64` reads in `text`, or `None` where it refuses
/// the text: the engine of the URL safe alphabet or of the standard one, which wants padding or
/// wants none.
pub uninterp spec fn base64_read(url_safe: bool, padded: bool, text: Seq<char>) -> Option<Seq<u8>>;

/// Calls `base64::Engine::encode` on the engine `STANDARD_NO_PAD`, `STANDARD`, `URL_SAFE_NO_PAD` or
/// `URL_SAFE`. What an engine writes, it reads back itself; each of the other three either refuses
/// the text or reads the same bytes in it, as the two alphabets differ in two symbols only and agree
/// on all others, and padding is checked but holds no data.
#[verifier::external_body]
pub(crate) fn write_base64(url_safe: bool, padded: bool, bytes: &[u8]) -> (text: String)
    ensures
        text@ == base64_written(url_safe, padded, bytes@),
        base64_read(url_safe, padded, text@) == Some(bytes@),
        forall|other_url_safe: bool, other_padded: bool|
            (#[trigger] base64_read(other_url_safe, other_padded, text@)) is Some ==> base64_read(
                other_url_safe,
                other_padded,
                text@,
            ) == Some(bytes@),
{
    let engine = match (url_safe, padded) {
        (false, false) => base64::engine::general_purpose::STANDARD_NO_PAD,
        (false, true) => base64::engine::general_purpose::STANDARD,
        (true, false) => base64::engine::general_purpose::URL_SAFE_NO_PAD,
        (true, true) => base64::engine::general_purpose::URL_SAFE,
    };
    base64::Engine::encode(&engine, bytes)
}

/// Calls `base64::Engine::decode` on the engine `STANDARD_NO_PAD`, `STANDARD`, `URL_SAFE_NO_PAD` or
/// `URL_SAFE`. What it reads goes by the name `base64_read`; a text is accepted only in the form that
/// the engine writes the bytes in, as it is strict about padding and about the bits that are left
/// over. Which error a refused text gets is left unsaid.
#[verifier::external_body]
pub(crate) fn read_base64(url_safe: bool, padded: bool, text: &str) -> (result: Result<
    Vec<u8>,
    base64::DecodeError,
>)
    ensures
        match result {
            Ok(bytes) => base64_read(url_safe, padded, text@) == Some(bytes@) && text@
                == base64_written(url_safe, padded, bytes@),
            Err(_) => base64_read(url_safe, padded, text@) is None,
        },
{
    let engine = match (url_safe, padded) {
        (false, false) => base64::engine::general_purpose::STANDARD_NO_PAD,
        (false, true) => base64::engine::general_purpose::STANDARD,
        (true, false) => base64::engine::general_purpose::URL_SAFE_NO_PAD,
        (true, true) => base64::engine::general_purpose::URL_SAFE,
    };
    base64::Engine::decode(&engine, text)
}

/// The first of four readings that is one.
pub open spec fn first_reading(
    standard: Option<Seq<u8>>,
    standard_padded: Option<Seq<u8>>,
    url_safe: Option<Seq<u8>>,
    url_safe_padded: Option<Seq<u8>>,
) -> Option<Seq<u8>> {
    if standard is Some {
        standard
    } else if standard_padded is Some {
        standard_padded
    } else if url_safe is Some {
        url_safe
    } else {
        url_safe_padded
    }
}

/// The key that a text stands for: what the first engine that accepts the text reads in it. The
/// standard alphabet comes before the URL safe one, and no padding before padding.
pub open spec fn key_of_text(text: Seq<char>) -> Option<Seq<u8>> {
    first_reading(
        base64_read(false, false, text),
        base64_read(false, true, text),
        base64_read(true, false, text),
        base64_read(true, true, text),
    )
}

/// The bytes of an optional byte string.
pub open spec fn bytes_of(bytes: Option<Vec<u8>>) -> Option<Seq<u8>> {
    match bytes {
        Some(bytes) => Some(bytes@),
        None => None,
    }
}

/// Picks the first of the four readings of a text that is one.
pub fn pick_reading(
    standard: Option<Vec<u8>>,
    standard_padded: Option<Vec<u8>>,
    url_safe: Option<Vec<u8>>,
    url_safe_padded: Option<Vec<u8>>,
) -> (key: Option<Vec<u8>>)
    ensures
        bytes_of(key) == first_reading(
            bytes_of(standard),
            bytes_of(standard_padded),
            bytes_of(url_safe),
            bytes_of(url_safe_padded),
        ),
{
    if standard.is_some() {
        standard
    } else if standard_padded.is_some() {
        standard_padded
    } else if url_safe.is_some() {
        url_safe
    } else {
        url_safe_padded
    }
}

/// `text` is one of the four forms that `key` is written in.
pub open spec fn is_written_form(text: Seq<char>, key: Seq<u8>) -> bool {
    exists|url_safe: bool, padded: bool| text == #[trigger] base64_written(url_safe, padded, key)
}

/// What one engine reads in a text, its error dropped.
fn reading(url_safe: bool, padded: bool, text: &str) -> (key: Option<Vec<u8>>)
    ensures
        bytes_of(key) == base64_read(url_safe, padded, text@),
        key matches Some(key) ==> is_written_form(text@, key@),
{
    match read_base64(url_safe, padded, text) {
        Ok(key) => Some(key),
        Err(_) => None,
    }
}

/// Reads a key in any of the four forms, and in no other.
pub fn read_key(text: &str) -> (key: Option<Vec<u8>>)
    ensures
        bytes_of(key) == key_of_text(text@),
        key matches Some(key) ==> is_written_form(text@, key@),
{
    pick_reading(
        reading(false, false, text),
        reading(false, true, text),
        reading(true, false, text),
        reading(true, true, text),
    )
}

/// Writes a key as text in any of the four forms. The text stands for that key again, whichever form
/// it is written in.
pub fn write_key_as(url_safe: bool, padded: bool, key: &[u8]) -> (text: String)
    ensures
        text@ == base64_written(url_safe, padded, key@),
        key_of_text(text@) == Some(key@),
{
    write_base64(url_safe, padded, key)
}

/// Writes a key as text, in the form that keys are sent in. The text stands for that key again.
pub fn write_key(key: &[u8]) -> (text: String)
    ensures
        text@ == base64_written(true, false, key@),
        key_of_text(text@) == Some(key@),
{
    write_key_as(true, false, key)
}

/// A text is read as a key where any of the four engines reads it, and by the first that does: the
/// standard alphabet before the URL safe one, and no padding before padding.
pub proof fn law_first_engine_reads(text: Seq<char>)
    ensures
        base64_read(false, false, text) is Some ==> key_of_text(text) == base64_read(
            false,
            false,
            text,
        ),
        base64_read(false, false, text) is None && base64_read(false, true, text) is Some
            ==> key_of_text(text) == base64_read(false, true, text),
        base64_read(false, false, text) is None && base64_read(false, true, text) is None
            && base64_read(true, false, text) is Some ==> key_of_text(text) == base64_read(
            true,
            false,
            text,
        ),
        base64_read(false, false, text) is None && base64_read(false, true, text) is None
            && base64_read(true, false, text) is None ==> key_of_text(text) == base64_read(
            true,
            true,
            text,
        ),
{
}

/// The first reading that is one is picked, and none of the others matters.
pub proof fn law_first_reading_is_picked(
    key: Seq<u8>,
    second: Option<Seq<u8>>,
    third: Option<Seq<u8>>,
    fourth: Option<Seq<u8>>,
)
    ensures
        first_reading(Some(key), second, third, fourth) == Some(key),
        first_reading(None, Some(key), third, fourth) == Some(key),
        first_reading(None, None, Some(key), fourth) == Some(key),
        first_reading(None, None, None, fourth) == fourth,
{
}

/// The bytes of an optional byte string are its bytes.
pub proof fn law_bytes_are_kept(bytes: Vec<u8>)
    ensures
        bytes_of(Some(bytes)) == Some(bytes@),
        bytes_of(None) is None,
{
}

/// What is written in any form is read back: reading the text of a key gives the key.
pub proof fn law_written_key_is_read_back(
    url_safe: bool,
    padded: bool,
    key: &[u8],
    written: String,
    text: &str,
    read: Option<Vec<u8>>,
)
    requires
        call_ensures(write_key_as, (url_safe, padded, key), written),
        call_ensures(read_key, (text,), read),
        text@ == written@,
    ensures
        read is Some,
        read->0@ == key@,
{
}

/// What is sent of a key is read back too: the form that keys are sent in is one of the four.
pub proof fn law_sent_form_is_read_back(
    key: &[u8],
    written: String,
    text: &str,
    read: Option<Vec<u8>>,
)
    requires
        call_ensures(write_key, (key,), written),
        call_ensures(read_key, (text,), read),
        text@ == written@,
    ensures
        read is Some,
        read->0@ == key@,
        written@ == base64_written(true, false, key@),
{
}

/// Picking a reading gives the first of the four that is one.
pub proof fn law_picked_reading_is_the_first(
    standard: Option<Vec<u8>>,
    standard_padded: Option<Vec<u8>>,
    url_safe: Option<Vec<u8>>,
    url_safe_padded: Option<Vec<u8>>,
    key: Option<Vec<u8>>,
)
    requires
        call_ensures(pick_reading, (standard, standard_padded, url_safe, url_safe_padded), key),
    ensures
        standard matches Some(first) ==> key is Some && key->0@ == first@,
        standard is None && standard_padded is Some ==> key is Some && key->0@
            == standard_padded->0@,
        standard is None && standard_padded is None && url_safe is Some ==> key is Some && key->0@
            == url_safe->0@,
        standard is None && standard_padded is None && url_safe is None && url_safe_padded is Some
            ==> key is Some && key->0@ == url_safe_padded->0@,
        standard is None && standard_padded is None && url_safe is None && url_safe_padded is None
            ==> key is None,
{
}

} // verus!
