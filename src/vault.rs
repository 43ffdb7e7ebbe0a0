//! Sealing one file into a container and opening it again. The path and the
//! body share one keystream: the path takes its first bytes, the body
//! continues where the path stopped.
use vstd::prelude::*;
use vstd::string::StringSliceAdditionalSpecFns;
use vstd::utf8::{decode_utf8, encode_utf8, valid_utf8};

use crate::container::{
    body_field, declared_path_len, encode_header, header_bytes, header_fits, le_bytes,
    lemma_le_round_trip, nonce_field, parse_header_prefix, path_field, FIXED_HEADER, MAX_PATH_LEN,
    NONCE_LEN,
};
use crate::keystream::lemma_keystream_involution;
use crate::error::VaultError;
use crate::kdf::{derive_key, derived_key, KdfParams, KeyMaterial};
use crate::keystream::{keystream_xor, FileCipher, KEYSTREAM_LIMIT, KEY_LEN};

verus! {

/// The container that sealing `path` and `body` under `key` and `nonce` gives.
pub open spec fn sealed(key: Seq<u8>, nonce: Seq<u8>, path: Seq<u8>, body: Seq<u8>) -> Seq<u8> {
    header_bytes(nonce, keystream_xor(key, nonce, 0, path)) + keystream_xor(
        key,
        nonce,
        path.len() as int,
        body,
    )
}

/// The path bytes that opening `data` with `secret` gives.
pub open spec fn opened_path(secret: Seq<u8>, params: KdfParams, data: Seq<u8>) -> Seq<u8> {
    let nonce = nonce_field(data);
    keystream_xor(derived_key(secret, nonce, params), nonce, 0, path_field(data))
}

/// The body that opening `data` with `secret` gives.
pub open spec fn opened_body(secret: Seq<u8>, params: KdfParams, data: Seq<u8>) -> Seq<u8> {
    let nonce = nonce_field(data);
    keystream_xor(
        derived_key(secret, nonce, params),
        nonce,
        path_field(data).len() as int,
        body_field(data),
    )
}

/// A path and a body fit one keystream, or the path is refused before any
/// keystream is used.
pub open spec fn fits_keystream(path_len: nat, body_len: nat) -> bool {
    path_len > MAX_PATH_LEN || path_len + body_len <= KEYSTREAM_LIMIT
}

/// Relies on std's `String::from_utf8`: it accepts exactly the valid UTF-8
/// byte strings and keeps the characters they encode.
#[verifier::external_body]
fn utf8_string(bytes: Vec<u8>) -> (r: Option<String>)
    ensures
        r is Some <==> valid_utf8(bytes@),
        r is Some ==> r->0@ == decode_utf8(bytes@),
{
    String::from_utf8(bytes).ok()
}

/// `src[start..end]` as a vector of its own.
fn copy_range(src: &[u8], start: usize, end: usize) -> (r: Vec<u8>)
    requires
        start <= end <= src@.len(),
    ensures
        r@ == src@.subrange(start as int, end as int),
{
    let mut out: Vec<u8> = Vec::new();
    let mut i: usize = start;
    while i < end
        invariant
            start <= i <= end <= src@.len(),
            out@ == src@.subrange(start as int, i as int),
        decreases end - i,
    {
        out.push(src[i]);
        i = i + 1;
        assert(out@ =~= src@.subrange(start as int, i as int));
    }
    out
}

/// A header ready to be written, and the keystream positioned for the body.
pub struct SealedHeader {
    pub header: Vec<u8>,
    pub cipher: FileCipher,
}

/// Encrypts the relative path with the file's keystream and lays out the
/// header. The keystream comes back positioned after the path.
pub fn seal_header(km: &KeyMaterial, rel_path: &str) -> (r: Result<SealedHeader, VaultError>)
    requires
        km.key@.len() == KEY_LEN,
    ensures
        encode_utf8(rel_path@).len() > MAX_PATH_LEN <==> r is Err,
        r is Err ==> r == Err::<SealedHeader, VaultError>(VaultError::PathTooLong),
        r is Ok ==> {
            let s = r->Ok_0;
            let path = encode_utf8(rel_path@);
            &&& s.header@ == header_bytes(km.nonce@, keystream_xor(km.key@, km.nonce@, 0, path))
            &&& s.cipher.wf()
            &&& s.cipher.key_seq() == km.key@
            &&& s.cipher.nonce_seq() == km.nonce@
            &&& s.cipher.position() == path.len()
        },
{
    let bytes = rel_path.as_bytes();
    if bytes.len() as u64 > MAX_PATH_LEN {
        return Err(VaultError::PathTooLong);
    }
    let mut path = copy_range(bytes, 0, bytes.len());
    assert(path@ =~= encode_utf8(rel_path@));
    let mut cipher = FileCipher::new(&km.key, &km.nonce);
    cipher.apply(&mut path);
    match encode_header(&km.nonce, &path) {
        Ok(header) => Ok(SealedHeader { header, cipher }),
        Err(e) => Err(e),
    }
}

/// A decrypted relative path, and the keystream positioned for the body.
pub struct OpenedHeader {
    pub path: String,
    pub cipher: FileCipher,
}

/// Decrypts the path field of a container with the file's key. A path that
/// does not decode as text makes the container malformed.
pub fn open_header(key: &Vec<u8>, nonce: &[u8; 24], enc_path: Vec<u8>) -> (r: Result<
    OpenedHeader,
    VaultError,
>)
    requires
        key@.len() == KEY_LEN,
        enc_path@.len() <= MAX_PATH_LEN,
    ensures
        r is Ok <==> valid_utf8(keystream_xor(key@, nonce@, 0, enc_path@)),
        r is Err ==> r == Err::<OpenedHeader, VaultError>(VaultError::MalformedContainer),
        r is Ok ==> {
            let o = r->Ok_0;
            &&& o.path@ == decode_utf8(keystream_xor(key@, nonce@, 0, enc_path@))
            &&& o.cipher.wf()
            &&& o.cipher.key_seq() == key@
            &&& o.cipher.nonce_seq() == nonce@
            &&& o.cipher.position() == enc_path@.len()
        },
{
    let mut path = enc_path;
    let mut cipher = FileCipher::new(key, nonce);
    cipher.apply(&mut path);
    match utf8_string(path) {
        Some(text) => Ok(OpenedHeader { path: text, cipher }),
        None => Err(VaultError::MalformedContainer),
    }
}

/// Runs `data` through `cipher` in pieces of at most `chunk_len` bytes and
/// appends the output to `out`.
fn stream_chunks(cipher: &mut FileCipher, data: &[u8], chunk_len: usize, out: &mut Vec<u8>)
    requires
        old(cipher).wf(),
        chunk_len > 0,
        old(cipher).position() + data@.len() <= KEYSTREAM_LIMIT,
    ensures
        final(cipher).wf(),
        final(cipher).key_seq() == old(cipher).key_seq(),
        final(cipher).nonce_seq() == old(cipher).nonce_seq(),
        final(cipher).position() == old(cipher).position() + data@.len(),
        final(out)@ == old(out)@ + keystream_xor(
            old(cipher).key_seq(),
            old(cipher).nonce_seq(),
            old(cipher).position() as int,
            data@,
        ),
{
    let ghost key = cipher.key_seq();
    let ghost nonce = cipher.nonce_seq();
    let ghost start = cipher.position() as int;
    let ghost out0 = out@;
    let mut done: usize = 0;
    while done < data.len()
        invariant
            done <= data@.len(),
            chunk_len > 0,
            cipher.wf(),
            cipher.key_seq() == key,
            cipher.nonce_seq() == nonce,
            cipher.position() == start + done,
            start + data@.len() <= KEYSTREAM_LIMIT,
            out@ == out0 + keystream_xor(key, nonce, start, data@.subrange(0, done as int)),
        decreases data@.len() - done,
    {
        let end: usize = if data.len() - done > chunk_len {
            done + chunk_len
        } else {
            data.len()
        };
        let mut chunk = copy_range(data, done, end);
        cipher.apply(&mut chunk);
        proof {
            crate::keystream::lemma_keystream_chunks(
                key,
                nonce,
                start,
                data@.subrange(0, done as int),
                data@.subrange(done as int, end as int),
            );
            assert(data@.subrange(0, done as int) + data@.subrange(done as int, end as int)
                =~= data@.subrange(0, end as int));
        }
        out.append(&mut chunk);
        done = end;
    }
    assert(data@.subrange(0, data@.len() as int) =~= data@);
}

/// Seals a whole file held in memory: the header, then the body processed in
/// chunks of `chunk_len` bytes. The output does not depend on `chunk_len`.
pub fn seal_container(km: &KeyMaterial, rel_path: &str, body: &Vec<u8>, chunk_len: usize) -> (r:
    Result<Vec<u8>, VaultError>)
    requires
        km.key@.len() == KEY_LEN,
        chunk_len > 0,
        fits_keystream(encode_utf8(rel_path@).len(), body@.len()),
    ensures
        encode_utf8(rel_path@).len() > MAX_PATH_LEN <==> r is Err,
        r is Err ==> r == Err::<Vec<u8>, VaultError>(VaultError::PathTooLong),
        r is Ok ==> r->Ok_0@ == sealed(km.key@, km.nonce@, encode_utf8(rel_path@), body@),
{
    let start = seal_header(km, rel_path);
    match start {
        Err(e) => Err(e),
        Ok(s) => {
            let SealedHeader { header, cipher } = s;
            let mut out = header;
            let mut cipher = cipher;
            stream_chunks(&mut cipher, body.as_slice(), chunk_len, &mut out);
            Ok(out)
        },
    }
}

/// A file recovered from its container: its relative path and its content.
pub struct OpenedFile {
    pub path: String,
    pub body: Vec<u8>,
}

/// Opens a whole container held in memory with the password, processing the
/// body in chunks of `chunk_len` bytes.
pub fn open_container(secret: &[u8], params: &KdfParams, data: &Vec<u8>, chunk_len: usize) -> (r:
    Result<OpenedFile, VaultError>)
    requires
        chunk_len > 0,
        data@.len() <= KEYSTREAM_LIMIT + FIXED_HEADER,
    ensures
        !header_fits(data@) ==> r == Err::<OpenedFile, VaultError>(VaultError::MalformedContainer),
        header_fits(data@) && params.refused() ==> r == Err::<OpenedFile, VaultError>(
            VaultError::KeyDerivationFailure,
        ),
        header_fits(data@) && params.accepted(secret@.len()) ==> (r is Ok <==> valid_utf8(
            opened_path(secret@, *params, data@),
        )),
        header_fits(data@) && params.accepted(secret@.len()) && r is Err ==> r == Err::<
            OpenedFile,
            VaultError,
        >(VaultError::MalformedContainer),
        r is Err ==> r == Err::<OpenedFile, VaultError>(VaultError::MalformedContainer) || r
            == Err::<OpenedFile, VaultError>(VaultError::KeyDerivationFailure),
        r is Ok ==> {
            let o = r->Ok_0;
            &&& header_fits(data@)
            &&& o.path@ == decode_utf8(opened_path(secret@, *params, data@))
            &&& o.body@ == opened_body(secret@, *params, data@)
        },
{
    let prefix = match parse_header_prefix(data.as_slice(), data.len() as u64) {
        Ok(p) => p,
        Err(e) => {
            return Err(e);
        },
    };
    assert(data@.subrange(0, 24) == nonce_field(data@));
    let key = match derive_key(secret, &prefix.nonce, params) {
        Ok(k) => k,
        Err(e) => {
            return Err(e);
        },
    };
    let path_end: usize = FIXED_HEADER + prefix.path_len as usize;
    let enc_path = copy_range(data.as_slice(), FIXED_HEADER, path_end);
    assert(enc_path@ == path_field(data@));
    let opened = match open_header(&key, &prefix.nonce, enc_path) {
        Ok(o) => o,
        Err(e) => {
            return Err(e);
        },
    };
    let OpenedHeader { path, cipher } = opened;
    let mut cipher = cipher;
    let mut body: Vec<u8> = Vec::new();
    let rest = copy_range(data.as_slice(), path_end, data.len());
    assert(rest@ == body_field(data@));
    stream_chunks(&mut cipher, rest.as_slice(), chunk_len, &mut body);
    assert(body@ =~= opened_body(secret@, *params, data@));
    Ok(OpenedFile { path, body })
}

proof fn lemma_sealed_fields(key: Seq<u8>, nonce: Seq<u8>, path: Seq<u8>, body: Seq<u8>)
    requires
        nonce.len() == NONCE_LEN,
        path.len() <= MAX_PATH_LEN,
    ensures
        ({
            let data = sealed(key, nonce, path, body);
            &&& header_fits(data)
            &&& declared_path_len(data) == path.len()
            &&& nonce_field(data) == nonce
            &&& path_field(data) == keystream_xor(key, nonce, 0, path)
            &&& body_field(data) == keystream_xor(key, nonce, path.len() as int, body)
        }),
{
    let data = sealed(key, nonce, path, body);
    let enc_path = keystream_xor(key, nonce, 0, path);
    let enc_body = keystream_xor(key, nonce, path.len() as int, body);
    lemma_le_round_trip(path.len());
    assert(data =~= nonce + le_bytes(path.len()) + enc_path + enc_body);
    assert(data.subrange(NONCE_LEN as int, FIXED_HEADER as int) =~= le_bytes(path.len()));
    assert(nonce_field(data) =~= nonce);
    assert(path_field(data) =~= enc_path);
    assert(body_field(data) =~= enc_body);
}

/// Opening a sealed file with the password it was sealed with gives back its
/// relative path and its content, byte for byte, whatever the sizes (an empty
/// body included).
pub proof fn lemma_round_trip(
    secret: Seq<u8>,
    params: KdfParams,
    nonce: Seq<u8>,
    rel_path: Seq<char>,
    body: Seq<u8>,
)
    requires
        nonce.len() == NONCE_LEN,
        encode_utf8(rel_path).len() <= MAX_PATH_LEN,
    ensures
        ({
            let data = sealed(derived_key(secret, nonce, params), nonce, encode_utf8(rel_path), body);
            &&& data.len() == FIXED_HEADER + encode_utf8(rel_path).len() + body.len()
            &&& header_fits(data)
            &&& valid_utf8(opened_path(secret, params, data))
            &&& decode_utf8(opened_path(secret, params, data)) == rel_path
            &&& opened_body(secret, params, data) == body
        }),
{
    let key = derived_key(secret, nonce, params);
    let path = encode_utf8(rel_path);
    let data = sealed(key, nonce, path, body);
    lemma_sealed_fields(key, nonce, path, body);
    lemma_keystream_involution(key, nonce, 0, path);
    lemma_keystream_involution(key, nonce, path.len() as int, body);
    vstd::utf8::encode_utf8_valid_utf8(rel_path);
    vstd::utf8::encode_utf8_decode_utf8(rel_path);
}

/// A container whose path-length field was overwritten with a length that
/// runs past the end of the container is refused as malformed: the body is
/// never read as path bytes.
pub proof fn lemma_corrupt_length_detected(
    key: Seq<u8>,
    nonce: Seq<u8>,
    path: Seq<u8>,
    body: Seq<u8>,
    forged_len: nat,
)
    requires
        nonce.len() == NONCE_LEN,
        path.len() <= MAX_PATH_LEN,
        path.len() + body.len() < forged_len <= 0xFFFF_FFFF,
    ensures
        ({
            let data = sealed(key, nonce, path, body);
            let corrupt = data.subrange(0, NONCE_LEN as int) + le_bytes(forged_len) + data.subrange(
                FIXED_HEADER as int,
                data.len() as int,
            );
            &&& corrupt.len() == data.len()
            &&& !header_fits(corrupt)
        }),
{
    let data = sealed(key, nonce, path, body);
    lemma_sealed_fields(key, nonce, path, body);
    lemma_le_round_trip(forged_len);
    let corrupt = data.subrange(0, NONCE_LEN as int) + le_bytes(forged_len) + data.subrange(
        FIXED_HEADER as int,
        data.len() as int,
    );
    assert(corrupt.subrange(NONCE_LEN as int, FIXED_HEADER as int) =~= le_bytes(forged_len));
}

} // verus!
