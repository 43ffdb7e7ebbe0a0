//! The on-disk container:
//! `nonce (24) | path length (4, little-endian) | encrypted path | body`.
use vstd::prelude::*;

use crate::error::VaultError;

verus! {

/// Bytes of the random value that is both the password-hash salt and the
/// cipher nonce.
pub const NONCE_LEN: usize = 24;

/// Bytes of the little-endian path-length field.
pub const LEN_FIELD: usize = 4;

/// Bytes of the fixed part of the header: nonce and path-length field.
pub const FIXED_HEADER: usize = 28;

/// The largest encrypted path the length field can describe.
pub const MAX_PATH_LEN: u64 = 0xFFFF_FFFF;

/// The number that four little-endian bytes stand for.
pub open spec fn le_u32(b: Seq<u8>) -> nat
    recommends
        b.len() == 4,
{
    (b[0] as nat) + 256 * (b[1] as nat) + 65536 * (b[2] as nat) + 16777216 * (b[3] as nat)
}

/// The four little-endian bytes of `n`.
pub open spec fn le_bytes(n: nat) -> Seq<u8>
    recommends
        n <= 0xFFFF_FFFF,
{
    seq![
        (n % 256) as u8,
        ((n / 256) % 256) as u8,
        ((n / 65536) % 256) as u8,
        ((n / 16777216) % 256) as u8,
    ]
}

/// The header written in front of a body: nonce, path length, encrypted path.
pub open spec fn header_bytes(nonce: Seq<u8>, enc_path: Seq<u8>) -> Seq<u8> {
    nonce + le_bytes(enc_path.len()) + enc_path
}

/// The path length that a container's header declares.
pub open spec fn declared_path_len(data: Seq<u8>) -> nat {
    le_u32(data.subrange(NONCE_LEN as int, FIXED_HEADER as int))
}

/// A container's header is readable: the fixed part is there and the declared
/// path fits in what follows it.
pub open spec fn header_fits(data: Seq<u8>) -> bool {
    &&& data.len() >= FIXED_HEADER
    &&& declared_path_len(data) <= data.len() - FIXED_HEADER
}

/// The nonce of a container.
pub open spec fn nonce_field(data: Seq<u8>) -> Seq<u8> {
    data.subrange(0, NONCE_LEN as int)
}

/// The encrypted path of a container whose header fits.
pub open spec fn path_field(data: Seq<u8>) -> Seq<u8> {
    data.subrange(FIXED_HEADER as int, FIXED_HEADER + declared_path_len(data))
}

/// The encrypted body of a container whose header fits.
pub open spec fn body_field(data: Seq<u8>) -> Seq<u8> {
    data.subrange(FIXED_HEADER + declared_path_len(data), data.len() as int)
}

pub(crate) proof fn lemma_le_round_trip(n: nat)
    requires
        n <= 0xFFFF_FFFF,
    ensures
        le_u32(le_bytes(n)) == n,
        le_bytes(n).len() == 4,
{
    let b = le_bytes(n);
    assert(b[0] as nat == n % 256);
    assert(b[1] as nat == (n / 256) % 256);
    assert(b[2] as nat == (n / 65536) % 256);
    assert(b[3] as nat == (n / 16777216) % 256);
    assert((n % 256) + 256 * ((n / 256) % 256) + 65536 * ((n / 65536) % 256) + 16777216 * ((n
        / 16777216) % 256) == n) by (nonlinear_arith)
        requires
            n <= 0xFFFF_FFFF,
    ;
}

/// Writes the header for `enc_path` behind `nonce`; a path the length field
/// cannot describe is refused rather than cut short.
pub fn encode_header(nonce: &[u8; 24], enc_path: &Vec<u8>) -> (r: Result<Vec<u8>, VaultError>)
    ensures
        enc_path@.len() > MAX_PATH_LEN <==> r == Err::<Vec<u8>, VaultError>(
            VaultError::PathTooLong,
        ),
        enc_path@.len() <= MAX_PATH_LEN <==> r is Ok,
        r is Ok ==> r->Ok_0@ == header_bytes(nonce@, enc_path@),
{
    if enc_path.len() as u64 > MAX_PATH_LEN {
        return Err(VaultError::PathTooLong);
    }
    let n: u32 = enc_path.len() as u32;
    let mut out: Vec<u8> = Vec::new();
    let mut i: usize = 0;
    while i < NONCE_LEN
        invariant
            i <= NONCE_LEN,
            out@ == nonce@.subrange(0, i as int),
        decreases NONCE_LEN - i,
    {
        out.push(nonce[i]);
        i = i + 1;
        assert(out@ =~= nonce@.subrange(0, i as int));
    }
    out.push((n % 256) as u8);
    out.push(((n / 256) % 256) as u8);
    out.push(((n / 65536) % 256) as u8);
    out.push(((n / 16777216) % 256) as u8);
    assert(out@ =~= nonce@ + le_bytes(enc_path@.len()));
    let mut j: usize = 0;
    while j < enc_path.len()
        invariant
            j <= enc_path@.len(),
            out@ == nonce@ + le_bytes(enc_path@.len()) + enc_path@.subrange(0, j as int),
        decreases enc_path@.len() - j,
    {
        out.push(enc_path[j]);
        j = j + 1;
        assert(out@ =~= nonce@ + le_bytes(enc_path@.len()) + enc_path@.subrange(0, j as int));
    }
    assert(enc_path@.subrange(0, enc_path@.len() as int) =~= enc_path@);
    Ok(out)
}

/// The fixed part of a header: the nonce and the declared path length.
pub struct HeaderPrefix {
    pub nonce: [u8; 24],
    pub path_len: u32,
}

/// Reads the fixed part of a header from `head`, the first bytes of a
/// container that is `container_len` bytes long in all.
pub fn parse_header_prefix(head: &[u8], container_len: u64) -> (r: Result<
    HeaderPrefix,
    VaultError,
>)
    ensures
        (head@.len() >= FIXED_HEADER && container_len >= FIXED_HEADER && le_u32(
            head@.subrange(NONCE_LEN as int, FIXED_HEADER as int),
        ) <= container_len - FIXED_HEADER) <==> r is Ok,
        r is Err ==> r == Err::<HeaderPrefix, VaultError>(VaultError::MalformedContainer),
        r is Ok ==> r->Ok_0.nonce@ == head@.subrange(0, NONCE_LEN as int) && r->Ok_0.path_len
            == le_u32(head@.subrange(NONCE_LEN as int, FIXED_HEADER as int)),
{
    if head.len() < FIXED_HEADER || container_len < FIXED_HEADER as u64 {
        return Err(VaultError::MalformedContainer);
    }
    let b0 = head[24] as u32;
    let b1 = head[25] as u32;
    let b2 = head[26] as u32;
    let b3 = head[27] as u32;
    let len: u32 = b0 + 256 * b1 + 65536 * b2 + 16777216 * b3;
    if len as u64 > container_len - FIXED_HEADER as u64 {
        return Err(VaultError::MalformedContainer);
    }
    let mut nonce: [u8; 24] = [0u8; 24];
    let mut i: usize = 0;
    while i < NONCE_LEN
        invariant
            i <= NONCE_LEN,
            head@.len() >= FIXED_HEADER,
            forall|k: int| 0 <= k < i ==> nonce@[k] == head@[k],
        decreases NONCE_LEN - i,
    {
        nonce[i] = head[i];
        i = i + 1;
    }
    assert(nonce@ =~= head@.subrange(0, NONCE_LEN as int));
    Ok(HeaderPrefix { nonce, path_len: len })
}

} // verus!
