//! The XChaCha20 keystream, addressed by absolute position so that a file can
//! be processed in chunks of any size.
use vstd::prelude::*;

use chacha20::cipher::{KeyIvInit, StreamCipher, StreamCipherSeek};

verus! {

/// Bytes of a derived key.
pub const KEY_LEN: usize = 32;

/// Bytes of keystream one key and nonce provide: 2^32 - 1 blocks of 64 bytes.
pub const KEYSTREAM_LIMIT: u64 = 274877906880;

/// Byte `index` of the XChaCha20 keystream for `key` and `nonce`.
pub uninterp spec fn xchacha20_keystream(key: Seq<u8>, nonce: Seq<u8>, index: int) -> u8;

/// `data` XORed with the keystream, starting at keystream position `start`.
pub open spec fn keystream_xor(key: Seq<u8>, nonce: Seq<u8>, start: int, data: Seq<u8>) -> Seq<u8> {
    Seq::new(data.len(), |i: int| data[i] ^ xchacha20_keystream(key, nonce, start + i))
}

/// Relies on chacha20's `XChaCha20`: `new`, `seek` to a byte offset, then
/// `apply_keystream` XORs the data with the keystream from that offset on.
/// `seek` and `apply_keystream` panic past the end of the keystream, which
/// `requires` leaves out.
#[verifier::external_body]
fn xchacha20_xor_at(key: &[u8], nonce: &[u8; 24], offset: u64, data: &mut Vec<u8>)
    requires
        key@.len() == KEY_LEN,
        offset + old(data)@.len() <= KEYSTREAM_LIMIT,
    ensures
        final(data)@.len() == old(data)@.len(),
        forall|i: int|
            0 <= i < old(data)@.len() ==> #[trigger] final(data)@[i] == old(data)@[i]
                ^ xchacha20_keystream(key@, nonce@, offset + i),
{
    let mut cipher = chacha20::XChaCha20::new(key.into(), &(*nonce).into());
    cipher.seek(offset);
    cipher.apply_keystream(data.as_mut_slice());
}

/// The keystream of one file: a key, a nonce and the position reached so far.
/// The path and the body of a file share it, the body starting where the path
/// ended.
pub struct FileCipher {
    key: Vec<u8>,
    nonce: [u8; 24],
    position: u64,
}

impl FileCipher {
    pub closed spec fn key_seq(&self) -> Seq<u8> {
        self.key@
    }

    pub closed spec fn nonce_seq(&self) -> Seq<u8> {
        self.nonce@
    }

    /// How many keystream bytes have been used.
    pub closed spec fn position(&self) -> nat {
        self.position as nat
    }

    pub closed spec fn wf(&self) -> bool {
        &&& self.key@.len() == KEY_LEN
        &&& self.position <= KEYSTREAM_LIMIT
    }

    /// A keystream at its start.
    pub fn new(key: &Vec<u8>, nonce: &[u8; 24]) -> (r: FileCipher)
        requires
            key@.len() == KEY_LEN,
        ensures
            r.wf(),
            r.key_seq() == key@,
            r.nonce_seq() == nonce@,
            r.position() == 0,
    {
        FileCipher { key: key.clone(), nonce: *nonce, position: 0 }
    }

    /// How many keystream bytes have been used.
    pub fn used(&self) -> (r: u64)
        ensures
            r == self.position(),
    {
        self.position
    }

    /// XORs `data` with the next `data.len()` keystream bytes and moves past
    /// them.
    pub fn apply(&mut self, data: &mut Vec<u8>)
        requires
            old(self).wf(),
            old(self).position() + old(data)@.len() <= KEYSTREAM_LIMIT,
        ensures
            final(self).wf(),
            final(self).key_seq() == old(self).key_seq(),
            final(self).nonce_seq() == old(self).nonce_seq(),
            final(self).position() == old(self).position() + old(data)@.len(),
            final(data)@ == keystream_xor(
                old(self).key_seq(),
                old(self).nonce_seq(),
                old(self).position() as int,
                old(data)@,
            ),
    {
        let n = data.len();
        let ghost before = data@;
        xchacha20_xor_at(self.key.as_slice(), &self.nonce, self.position, data);
        assert(data@ =~= keystream_xor(self.key@, self.nonce@, self.position as int, before));
        self.position = self.position + n as u64;
    }
}

/// Processing data in two consecutive pieces gives what processing it at once
/// gives: chunk boundaries never change the output.
pub proof fn lemma_keystream_chunks(key: Seq<u8>, nonce: Seq<u8>, start: int, a: Seq<u8>, b: Seq<u8>)
    ensures
        keystream_xor(key, nonce, start, a + b) == keystream_xor(key, nonce, start, a)
            + keystream_xor(key, nonce, start + a.len(), b),
{
    assert(keystream_xor(key, nonce, start, a + b) =~= keystream_xor(key, nonce, start, a)
        + keystream_xor(key, nonce, start + a.len(), b));
}

/// Applying the same stretch of keystream twice gives the data back.
pub proof fn lemma_keystream_involution(key: Seq<u8>, nonce: Seq<u8>, start: int, data: Seq<u8>)
    ensures
        keystream_xor(key, nonce, start, keystream_xor(key, nonce, start, data)) == data,
{
    let once = keystream_xor(key, nonce, start, data);
    let twice = keystream_xor(key, nonce, start, once);
    assert forall|i: int| 0 <= i < data.len() implies twice[i] == data[i] by {
        let x = data[i];
        let y = xchacha20_keystream(key, nonce, start + i);
        assert((x ^ y) ^ y == x) by (bit_vector);
    }
    assert(twice =~= data);
}

} // verus!
