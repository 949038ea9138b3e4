//! The page cache's codec and key. A cached body is stored as an lz4 block
//! with the decompressed size prepended as a 4-byte little-endian prefix;
//! the cache key is the URL's host followed by a URL-safe base64 encoding
//! of the whole normalized URL serialization. Reading and writing the files
//! is the caller's business; this module only turns bodies into cache
//! entries and back.

use vstd::prelude::*;
use vstd::string::*;
use crate::urls::CrawlUrl;

verus! {

/// The size-prefixed lz4 frame that `lz4_flex::compress_prepend_size`
/// produces for a body.
pub uninterp spec fn lz4_frame_of(body: Seq<u8>) -> Seq<u8>;

/// What `lz4_flex::decompress_size_prepended` recovers from a byte
/// sequence: the decompressed body, or nothing when the bytes are not a
/// well-formed frame.
pub uninterp spec fn lz4_unframe_of(data: Seq<u8>) -> Option<Seq<u8>>;

/// The longest body the frame's 4-byte size prefix can describe: one under
/// 2^32 bytes.
pub open spec fn fits_size_prefix(n: nat) -> bool {
    n < 0x1_0000_0000
}

/// `n` as a 4-byte little-endian size prefix.
pub open spec fn le32_of(n: nat) -> Seq<u8> {
    seq![
        (n % 0x100) as u8,
        ((n / 0x100) % 0x100) as u8,
        ((n / 0x1_0000) % 0x100) as u8,
        ((n / 0x100_0000) % 0x100) as u8,
    ]
}

/// A cache entry that cannot be decoded.
#[derive(Clone, Copy, PartialEq, Eq, Debug)]
pub enum CacheError {
    Corrupt,
}

/// Relies on `lz4_flex::compress_prepend_size`: it writes the input's
/// length as a little-endian `u32`, appends the compressed block, and
/// `lz4_flex::decompress_size_prepended` recovers exactly the input from
/// the result. The length is truncated to `u32`, so a body of 2^32 bytes
/// or more is left out by `requires`. The output depends on the input
/// bytes alone.
#[verifier::external_body]
fn lz4_compress(body: &Vec<u8>) -> (r: Vec<u8>)
    requires
        fits_size_prefix(body@.len()),
    ensures
        r@ == lz4_frame_of(body@),
        lz4_unframe_of(r@) == Some(body@),
        r@.len() >= 4,
        r@.subrange(0, 4) == le32_of(body@.len()),
{
    lz4_flex::compress_prepend_size(body.as_slice())
}

/// Relies on `lz4_flex::decompress_size_prepended`: it either recovers the
/// body a frame was built from or reports an error; the outcome depends on
/// the input bytes alone.
#[verifier::external_body]
fn lz4_decompress(data: &Vec<u8>) -> (r: Option<Vec<u8>>)
    ensures
        r is Some <==> lz4_unframe_of(data@) is Some,
        r matches Some(v) ==> v@ == lz4_unframe_of(data@)->Some_0,
{
    lz4_flex::decompress_size_prepended(data.as_slice()).ok()
}

/// Compress a fetched body into the cache's on-disk form: the body's length
/// as a 4-byte little-endian prefix, then the compressed payload. Decoding
/// the result gives back exactly `body` — the cache round trip, for every
/// byte sequence (including the empty one) that the size prefix can
/// describe.
pub fn encode_entry(body: &Vec<u8>) -> (r: Vec<u8>)
    requires
        fits_size_prefix(body@.len()),
    ensures
        r@ == lz4_frame_of(body@),
        lz4_unframe_of(r@) == Some(body@),
        r@.len() >= 4,
        r@.subrange(0, 4) == le32_of(body@.len()),
{
    lz4_compress(body)
}

/// Decode a cache entry read from disk: the body it was built from, or
/// `CacheError::Corrupt` exactly when the bytes are not a well-formed
/// frame.
pub fn decode_entry(data: &Vec<u8>) -> (r: Result<Vec<u8>, CacheError>)
    ensures
        r is Ok <==> lz4_unframe_of(data@) is Some,
        r matches Ok(v) ==> v@ == lz4_unframe_of(data@)->Some_0,
        r matches Err(e) ==> e == CacheError::Corrupt,
{
    match lz4_decompress(data) {
        Some(v) => Ok(v),
        None => Err(CacheError::Corrupt),
    }
}

/// The URL-safe base64 encoding (with padding) of the UTF-8 bytes of `s`.
pub uninterp spec fn b64url_of(s: Seq<char>) -> Seq<char>;

/// Relies on `base64::engine::Engine::encode` with the `BASE64_URL_SAFE`
/// engine: a URL-safe encoding of the input bytes, a function of the input
/// alone. The encoding is reversible (`Engine::decode` inverts it) and
/// UTF-8 is one-to-one on strings, so no other string encodes to the same
/// result — the second clause.
#[verifier::external_body]
fn b64url(s: &str) -> (r: String)
    ensures
        r@ == b64url_of(s@),
        forall|t: Seq<char>| #[trigger] b64url_of(t) == r@ ==> t == s@,
{
    base64::engine::Engine::encode(&base64::prelude::BASE64_URL_SAFE, s.as_bytes())
}

/// The cache key of a (normalized) URL: its host followed by the base64
/// encoding of its whole serialization. Deterministic; and for a given
/// host the key pins the serialization (second clause), since the
/// encoding is reversible. The host prefix itself is not delimited from
/// the encoding — that is the cache layout's own shape.
pub fn cache_key(u: &CrawlUrl) -> (r: String)
    ensures
        r@ == u@.host + b64url_of(u@.text),
        forall|t: Seq<char>| u@.host + #[trigger] b64url_of(t) == r@ ==> t == u@.text,
{
    let encoded = b64url(u.text.as_str());
    let host: String = u.host.clone();
    let r = host.concat(encoded.as_str());
    proof {
        assert forall|t: Seq<char>| u@.host + #[trigger] b64url_of(t) == r@
            implies t == u@.text by {
            assert(b64url_of(t) =~= encoded@) by {
                assert(u@.host + b64url_of(t) == u@.host + encoded@);
                assert((u@.host + b64url_of(t)).len() == u@.host.len() + b64url_of(t).len());
                assert((u@.host + encoded@).len() == u@.host.len() + encoded@.len());
                assert(b64url_of(t).len() == encoded@.len());
                assert(forall|k: int| 0 <= k < encoded@.len()
                    ==> (u@.host + b64url_of(t))[u@.host.len() + k] == b64url_of(t)[k]);
            };
        };
    }
    r
}

} // verus!
