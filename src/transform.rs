//! Payload transforms: compression and encryption, each with its inverse.
use std::io::Read;
use vstd::prelude::*;
use crate::header::{CompressionType, EncryptionType};

verus! {

/// What `zstd::stream::encode_all` gives for `p` at `level`: `None` for an error.
pub uninterp spec fn zstd_encoded(level: i32, p: Seq<u8>) -> Option<Seq<u8>>;

/// What `zstd::stream::decode_all` gives for `q`: `None` for an error.
pub uninterp spec fn zstd_decoded(q: Seq<u8>) -> Option<Seq<u8>>;

/// What flate2's gzip encoder gives for `p` at the default level: `None` for an error.
pub uninterp spec fn gzip_encoded(p: Seq<u8>) -> Option<Seq<u8>>;

/// What flate2's gzip decoder gives for `q`: `None` for an error.
pub uninterp spec fn gzip_decoded(q: Seq<u8>) -> Option<Seq<u8>>;

/// Relies on `zstd::stream::encode_all`: its output is a function of the
/// input and the level, and zstd decoding gives the input back.
#[verifier::external_body]
fn zstd_compress(p: &[u8], level: i32) -> (r: Option<Vec<u8>>)
    ensures
        opt_bytes(r) == zstd_encoded(level, p@),
        r matches Some(v) ==> zstd_decoded(v@) == Some(p@),
{
    zstd::stream::encode_all(p, level).ok()
}

/// Relies on `zstd::stream::decode_all`: its output is a function of the input.
#[verifier::external_body]
fn zstd_decompress(q: &[u8]) -> (r: Option<Vec<u8>>)
    ensures
        opt_bytes(r) == zstd_decoded(q@),
{
    zstd::stream::decode_all(q).ok()
}

/// Relies on `flate2::read::GzEncoder` at `Compression::default()`: its
/// output is a function of the input, and gzip decoding gives the input back.
#[verifier::external_body]
fn gzip_compress(p: &[u8]) -> (r: Option<Vec<u8>>)
    ensures
        opt_bytes(r) == gzip_encoded(p@),
        r matches Some(v) ==> gzip_decoded(v@) == Some(p@),
{
    let mut out = Vec::new();
    let read = flate2::read::GzEncoder::new(p, flate2::Compression::default()).read_to_end(&mut out);
    read.ok().map(|_| out)
}

/// Relies on `flate2::read::GzDecoder`: its output is a function of the input.
#[verifier::external_body]
fn gzip_decompress(q: &[u8]) -> (r: Option<Vec<u8>>)
    ensures
        opt_bytes(r) == gzip_decoded(q@),
{
    let mut out = Vec::new();
    let read = flate2::read::GzDecoder::new(q).read_to_end(&mut out);
    read.ok().map(|_| out)
}

/// zstd level of each zstd variant: the library default, fastest, or a slow
/// high-ratio level.
pub open spec fn zstd_level(c: CompressionType) -> i32 {
    match c {
        CompressionType::ZstdFast => 1,
        CompressionType::ZstdSlow => 19,
        _ => 0,
    }
}

/// Result of compressing `p` with `c`; `None` where the compressor failed.
pub open spec fn compress_spec(p: Seq<u8>, c: CompressionType) -> Option<Seq<u8>> {
    match c {
        CompressionType::Off => Some(p),
        CompressionType::Gzip => gzip_encoded(p),
        _ => zstd_encoded(zstd_level(c), p),
    }
}

/// Result of decompressing `q` with `c`; `None` where `q` does not decode.
pub open spec fn decompress_spec(q: Seq<u8>, c: CompressionType) -> Option<Seq<u8>> {
    match c {
        CompressionType::Off => Some(q),
        CompressionType::Gzip => gzip_decoded(q),
        _ => zstd_decoded(q),
    }
}

/// Result of encrypting `p` with `e`.
pub open spec fn encrypt_spec(p: Seq<u8>, e: EncryptionType) -> Option<Seq<u8>> {
    match e {
        EncryptionType::Off => Some(p),
    }
}

/// Result of decrypting `p` with `e`.
pub open spec fn decrypt_spec(p: Seq<u8>, e: EncryptionType) -> Option<Seq<u8>> {
    match e {
        EncryptionType::Off => Some(p),
    }
}

/// The view of an optional byte vector.
pub open spec fn opt_bytes(r: Option<Vec<u8>>) -> Option<Seq<u8>> {
    match r {
        Some(v) => Some(v@),
        None => None,
    }
}

fn zstd_level_of(c: CompressionType) -> (r: i32)
    ensures
        r == zstd_level(c),
{
    match c {
        CompressionType::ZstdFast => 1,
        CompressionType::ZstdSlow => 19,
        _ => 0,
    }
}

/// Compresses a payload. Whatever comes back, decompressing it with the
/// same variant gives the payload again.
pub fn compress(p: Vec<u8>, c: CompressionType) -> (r: Option<Vec<u8>>)
    ensures
        opt_bytes(r) == compress_spec(p@, c),
        c == CompressionType::Off ==> opt_bytes(r) == Some(p@),
        r matches Some(v) ==> decompress_spec(v@, c) == Some(p@),
{
    match c {
        CompressionType::Off => Some(p),
        CompressionType::Gzip => gzip_compress(p.as_slice()),
        _ => zstd_compress(p.as_slice(), zstd_level_of(c)),
    }
}

/// Reverses `compress`; `None` where `q` is not a valid compressed payload.
pub fn decompress(q: Vec<u8>, c: CompressionType) -> (r: Option<Vec<u8>>)
    ensures
        opt_bytes(r) == decompress_spec(q@, c),
{
    match c {
        CompressionType::Off => Some(q),
        CompressionType::Gzip => gzip_decompress(q.as_slice()),
        _ => zstd_decompress(q.as_slice()),
    }
}

/// Encrypts a payload.
pub fn encrypt(p: Vec<u8>, e: EncryptionType) -> (r: Option<Vec<u8>>)
    ensures
        opt_bytes(r) == encrypt_spec(p@, e),
        r matches Some(v) ==> decrypt_spec(v@, e) == Some(p@),
{
    match e {
        EncryptionType::Off => Some(p),
    }
}

/// Reverses `encrypt`.
pub fn decrypt(p: Vec<u8>, e: EncryptionType) -> (r: Option<Vec<u8>>)
    ensures
        opt_bytes(r) == decrypt_spec(p@, e),
{
    match e {
        EncryptionType::Off => Some(p),
    }
}

/// Decrypting an encrypted payload gives it back, for every variant.
pub proof fn lemma_encryption_round_trip(p: Seq<u8>, e: EncryptionType)
    ensures
        encrypt_spec(p, e) is Some,
        decrypt_spec(encrypt_spec(p, e).unwrap(), e) == Some(p),
{
}

} // verus!
