//! Contracts for the functions of other crates, and of the standard library,
//! that the engine calls. Verus takes each of them on trust: nothing in this
//! module is proved.

use vstd::prelude::*;
use vstd::utf8::{decode_utf8, valid_utf8};

verus! {

/// `String::push` appends the one character to the end of the string.
pub assume_specification[ String::push ](s: &mut String, ch: char)
    ensures
        final(s)@ == old(s)@.push(ch),
;

/// `String::pop` removes the last character and returns it; it returns
/// nothing and leaves the string alone when the string is empty.
pub assume_specification[ String::pop ](s: &mut String) -> (r: Option<char>)
    ensures
        match r {
            Some(c) => old(s)@.len() > 0 && c == old(s)@.last() && final(s)@ == old(s)@.drop_last(),
            None => old(s)@.len() == 0 && final(s)@ == old(s)@,
        },
;

/// `String::from_utf8` succeeds exactly on well-formed UTF-8, and the string
/// then holds the characters that the bytes encode. On other bytes its
/// error hands the bytes back unchanged.
#[verifier::external_body]
pub(crate) fn string_from_utf8(bytes: Vec<u8>) -> (r: Result<String, Vec<u8>>)
    ensures
        r is Ok <==> valid_utf8(bytes@),
        r matches Ok(s) ==> s@ == decode_utf8(bytes@),
        r matches Err(raw) ==> raw@ == bytes@,
{
    match String::from_utf8(bytes) {
        Ok(s) => Ok(s),
        Err(e) => Err(e.into_bytes()),
    }
}

/// The text that `String::from_utf8_lossy` makes of `bytes`.
pub uninterp spec fn utf8_lossy(bytes: Seq<u8>) -> Seq<char>;

/// `String::from_utf8_lossy` decodes well-formed UTF-8 as it is, and
/// otherwise puts a replacement character for each ill-formed part.
#[verifier::external_body]
pub(crate) fn string_from_utf8_lossy(bytes: &[u8]) -> (r: String)
    ensures
        r@ == utf8_lossy(bytes@),
        valid_utf8(bytes@) ==> r@ == decode_utf8(bytes@),
{
    String::from_utf8_lossy(bytes).into_owned()
}

/// The error of `regex::Regex::new`; nothing is read from it.
#[verifier::external_type_specification]
#[verifier::external_body]
pub struct ExRegexError(regex::Error);

/// What a search for the regular expression `pattern` in `text` gives:
/// nothing where `regex::Regex::new` refuses the pattern, and else the
/// first match that `Regex::find` reports, if there is a match.
pub uninterp spec fn regex_search(pattern: Seq<char>, text: Seq<char>) -> Option<
    Option<Seq<char>>,
>;

/// Compiles `pattern` with `regex::Regex::new` and searches `text` with
/// `Regex::find`. When the pattern compiles, the result is the matched part
/// of `text`, or nothing when there is no match. The error is the one that
/// `Regex::new` gives for a pattern that it refuses.
#[verifier::external_body]
pub(crate) fn regex_find(pattern: &str, text: &str) -> (r: Result<Option<String>, regex::Error>)
    ensures
        r matches Ok(Some(m)) ==> regex_search(pattern@, text@) == Some(Some(m@)),
        r matches Ok(None) ==> regex_search(pattern@, text@) == Some(None::<Seq<char>>),
        r is Err ==> regex_search(pattern@, text@) is None,
{
    match regex::Regex::new(pattern) {
        Ok(re) => match re.find(text) {
            Some(m) => Ok(Some(m.as_str().to_string())),
            None => Ok(None),
        },
        Err(e) => Err(e),
    }
}

/// The ASCII digit for a value below sixteen, in lower case.
pub open spec fn hex_digit(d: nat) -> u8 {
    if d < 10 {
        (48 + d) as u8
    } else {
        (87 + d) as u8
    }
}

/// The chunked transfer encoding of `data` in chunks of `size` bytes, for a
/// size of one hexadecimal digit: each chunk is its length as that digit, a
/// line end, its bytes and a line end; only the last chunk may be shorter
/// than `size`; and a chunk of length zero closes the encoding.
pub open spec fn chunked(data: Seq<u8>, size: nat) -> Seq<u8>
    recommends
        0 < size < 16,
    decreases data.len(),
{
    if data.len() == 0 || size == 0 {
        seq![48u8, 13u8, 10u8, 13u8, 10u8]
    } else {
        let n = if data.len() < size {
            data.len()
        } else {
            size
        };
        seq![hex_digit(n), 13u8, 10u8] + data.take(n as int) + seq![13u8, 10u8] + chunked(
            data.skip(n as int),
            size,
        )
    }
}

/// Writes `piece` through a `chunked_transfer::Encoder` made by
/// `Encoder::with_chunks_size` and returns what the encoder has written when
/// it is dropped: the one chunk of `piece`, if it is not empty, and the
/// closing chunk.
///
/// Only a piece of at most one chunk is admitted: the encoder calls itself
/// once more for every further chunk of what it is handed, so that a long
/// input would exhaust the stack. The encoder does not return for a chunk
/// size of zero, and only sizes of one hexadecimal digit are admitted.
#[verifier::external_body]
pub(crate) fn chunked_encode(piece: &[u8], chunk_size: usize) -> (r: Vec<u8>)
    requires
        0 < chunk_size < 16,
        piece@.len() <= chunk_size,
    ensures
        r@ == chunked(piece@, chunk_size as nat),
{
    let mut out: Vec<u8> = Vec::new();
    {
        let mut encoder = chunked_transfer::Encoder::with_chunks_size(&mut out, chunk_size);
        let _ = std::io::Write::write_all(&mut encoder, piece);
    }
    out
}

/// The error of the functions of `rustls_pemfile`; nothing is read from it.
#[verifier::external_type_specification]
#[verifier::external_body]
pub struct ExIoError(std::io::Error);

/// The byte strings of a sequence of byte vectors.
pub open spec fn blobs(v: Seq<Vec<u8>>) -> Seq<Seq<u8>> {
    Seq::new(v.len(), |i: int| v[i]@)
}

/// The certificates that `rustls_pemfile::certs` extracts from the PEM
/// text `pem`; nothing where it reports an error.
pub uninterp spec fn pem_certs(pem: Seq<u8>) -> Option<Seq<Seq<u8>>>;

/// The keys that `rustls_pemfile::rsa_private_keys` extracts from the PEM
/// text `pem`; nothing where it reports an error.
pub uninterp spec fn pem_rsa_keys(pem: Seq<u8>) -> Option<Seq<Seq<u8>>>;

/// Runs `rustls_pemfile::certs` on the bytes of a PEM text. It gives the
/// decoded content of every certificate section, in order, or the error
/// of the first section that is not well formed.
#[verifier::external_body]
pub(crate) fn read_pem_certs(pem: &[u8]) -> (r: Result<Vec<Vec<u8>>, std::io::Error>)
    ensures
        r matches Ok(found) ==> pem_certs(pem@) == Some(blobs(found@)),
        r is Err ==> pem_certs(pem@) is None,
{
    let mut reader = pem;
    rustls_pemfile::certs(&mut reader)
}

/// Runs `rustls_pemfile::rsa_private_keys` on the bytes of a PEM text. It
/// gives the decoded content of every RSA key section, in order, or the
/// error of the first section that is not well formed.
#[verifier::external_body]
pub(crate) fn read_pem_rsa_keys(pem: &[u8]) -> (r: Result<Vec<Vec<u8>>, std::io::Error>)
    ensures
        r matches Ok(found) ==> pem_rsa_keys(pem@) == Some(blobs(found@)),
        r is Err ==> pem_rsa_keys(pem@) is None,
{
    let mut reader = pem;
    rustls_pemfile::rsa_private_keys(&mut reader)
}

} // verus!
