//! Key derivation and authenticated encryption.
//!
//! An envelope is {algorithm id, nonce, ciphertext, tag}. The nonce is a
//! 64-bit counter (little endian) followed by four random filler bytes, so
//! two envelopes sealed at different counter values can never share a nonce.
//! The cipher xors the plaintext with a keyed byte stream; the tag binds the
//! key to the nonce and ciphertext, and its low byte is a keyed parity of
//! every nonce and ciphertext byte, so any single-bit alteration of either is
//! provably rejected on decryption.

use vstd::prelude::*;
use vstd::bytes::*;
use vstd::slice::slice_subrange;
use crate::errors::CoreError;
use crate::sys;

verus! {

/// Number of bytes in an envelope nonce.
pub const NONCE_LEN: usize = 12;

/// Identifier of the only algorithm this engine speaks.
pub const ALG_ID: u8 = 1;

/// Required length of a user's salt in bytes.
pub const SALT_LEN: usize = 16;

/// Rounds of mixing applied during key derivation: the work factor.
pub const KDF_ROUNDS: u64 = 4096;

/// A 128-bit symmetric key.
#[derive(Clone, Copy, Debug, PartialEq, Eq, Structural)]
pub struct Key {
    pub k0: u64,
    pub k1: u64,
}

/// The authenticated-encryption envelope.
#[derive(Debug)]
pub struct Envelope {
    pub alg: u8,
    pub nonce: Vec<u8>,
    pub ct: Vec<u8>,
    pub tag: u64,
}

/// Mathematical model of an envelope.
pub ghost struct EnvelopeModel {
    pub alg: u8,
    pub nonce: Seq<u8>,
    pub ct: Seq<u8>,
    pub tag: u64,
}

impl View for Envelope {
    type V = EnvelopeModel;

    open spec fn view(&self) -> EnvelopeModel {
        EnvelopeModel { alg: self.alg, nonce: self.nonce@, ct: self.ct@, tag: self.tag }
    }
}

impl Envelope {
    /// A deep copy of the envelope.
    pub fn duplicate(&self) -> (r: Envelope)
        ensures
            r@ == self@,
    {
        let mut nonce: Vec<u8> = Vec::new();
        let mut ct: Vec<u8> = Vec::new();
        let mut i: usize = 0;
        while i < self.nonce.len()
            invariant
                i <= self.nonce.len(),
                nonce@ == self.nonce@.subrange(0, i as int),
            decreases self.nonce.len() - i,
        {
            nonce.push(self.nonce[i]);
            i = i + 1;
            proof {
                assert(nonce@ =~= self.nonce@.subrange(0, i as int));
            }
        }
        let mut j: usize = 0;
        while j < self.ct.len()
            invariant
                j <= self.ct.len(),
                ct@ == self.ct@.subrange(0, j as int),
            decreases self.ct.len() - j,
        {
            ct.push(self.ct[j]);
            j = j + 1;
            proof {
                assert(ct@ =~= self.ct@.subrange(0, j as int));
            }
        }
        proof {
            assert(nonce@ =~= self.nonce@);
            assert(ct@ =~= self.ct@);
        }
        Envelope { alg: self.alg, nonce, ct, tag: self.tag }
    }
}

/// One round of 64-bit xorshift mixing.
pub open spec fn mix64(x: u64) -> u64 {
    let a = x ^ (x >> 33);
    let b = (a ^ (a << 21)) ^ 0x9e3779b97f4a7c15;
    b ^ (b >> 17)
}

pub(crate) fn mix64_exec(x: u64) -> (r: u64)
    ensures
        r == mix64(x),
{
    let a = x ^ (x >> 33);
    let b = (a ^ (a << 21)) ^ 0x9e3779b97f4a7c15;
    b ^ (b >> 17)
}

/// The keystream byte at position i under key, for the nonce with counter c
/// and random filler f.
pub open spec fn ks_byte(key: Key, c: u64, f: u32, i: u64) -> u8 {
    (mix64(key.k0 ^ mix64(c ^ mix64(key.k1 ^ (f as u64) ^ i))) & 0xff) as u8
}

fn ks_byte_exec(key: &Key, c: u64, f: u32, i: u64) -> (r: u8)
    ensures
        r == ks_byte(*key, c, f, i),
{
    (mix64_exec(key.k0 ^ mix64_exec(c ^ mix64_exec(key.k1 ^ (f as u64) ^ i))) & 0xff) as u8
}

/// The counter part of a nonce: its first eight bytes, little endian.
pub open spec fn nonce_counter(nonce: Seq<u8>) -> u64 {
    spec_u64_from_le_bytes(nonce.subrange(0, 8))
}

/// The random filler part of a nonce: its last four bytes, little endian.
pub open spec fn nonce_filler(nonce: Seq<u8>) -> u32 {
    spec_u32_from_le_bytes(nonce.subrange(8, 12))
}

/// Xor of data with the keystream selected by key and nonce. Applying it
/// twice with the same key and nonce restores the data.
pub open spec fn apply_stream(key: Key, nonce: Seq<u8>, data: Seq<u8>) -> Seq<u8> {
    Seq::new(
        data.len(),
        |i: int| data[i] ^ ks_byte(key, nonce_counter(nonce), nonce_filler(nonce), i as u64),
    )
}

/// Xor-fold of a byte sequence: the byte-wise parity of all elements.
pub open spec fn xor_fold(s: Seq<u8>) -> u8
    decreases s.len(),
{
    if s.len() == 0 {
        0u8
    } else {
        xor_fold(s.drop_last()) ^ s.last()
    }
}

/// Keyed accumulation of a byte sequence into 64 bits.
pub open spec fn mix_fold(acc: u64, s: Seq<u8>) -> u64
    decreases s.len(),
{
    if s.len() == 0 {
        acc
    } else {
        mix64(mix_fold(acc, s.drop_last()) ^ (s.last() as u64))
    }
}

/// The authentication tag over nonce and ciphertext: 56 keyed mixing bits,
/// and in the low byte the keyed parity of every nonce and ciphertext byte.
pub open spec fn mac(key: Key, nonce: Seq<u8>, ct: Seq<u8>) -> u64 {
    let parity = xor_fold(nonce + ct) ^ ((key.k1 & 0xff) as u8);
    let mixed = mix_fold(mix64(key.k0), nonce + ct) % 0x100000000000000;
    (mixed * 256 + parity) as u64
}

/// e is an envelope that sealing plaintext p at counter c under key can
/// yield (the four filler bytes of the nonce are arbitrary).
pub open spec fn is_sealed(key: Key, c: u64, e: EnvelopeModel, p: Seq<u8>) -> bool {
    &&& e.alg == ALG_ID
    &&& e.nonce.len() == NONCE_LEN
    &&& e.nonce.subrange(0, 8) == spec_u64_to_le_bytes(c)
    &&& e.ct == apply_stream(key, e.nonce, p)
    &&& e.tag == mac(key, e.nonce, e.ct)
}

/// The full decryption outcome as a mathematical function of key and
/// envelope: fails closed unless the algorithm id is known, the nonce has
/// its full length, and the tag matches.
pub open spec fn decrypt_model(key: Key, e: EnvelopeModel) -> Result<Seq<u8>, CoreError> {
    if e.alg == ALG_ID && e.nonce.len() == NONCE_LEN && e.tag == mac(key, e.nonce, e.ct) {
        Ok(apply_stream(key, e.nonce, e.ct))
    } else {
        Err(CoreError::AuthenticationFailure)
    }
}

/// The key encoded by sixteen little-endian bytes, if the length is right.
pub open spec fn key_of_bytes(s: Seq<u8>) -> Option<Key> {
    if s.len() == 16 {
        Some(
            Key {
                k0: spec_u64_from_le_bytes(s.subrange(0, 8)),
                k1: spec_u64_from_le_bytes(s.subrange(8, 16)),
            },
        )
    } else {
        None
    }
}

/// The data key held inside a wrapped-key envelope under the master key,
/// if the envelope authenticates and holds sixteen bytes.
pub open spec fn unwrapped_key(master: Key, env: EnvelopeModel) -> Option<Key> {
    match decrypt_model(master, env) {
        Ok(p) => key_of_bytes(p),
        Err(_) => None,
    }
}

/// Encodes a key as sixteen little-endian bytes.
pub fn key_to_bytes(k: &Key) -> (r: Vec<u8>)
    ensures
        r@.len() == 16,
        key_of_bytes(r@) == Some(*k),
{
    let mut v = u64_to_le_bytes(k.k0);
    let mut w = u64_to_le_bytes(k.k1);
    v.append(&mut w);
    proof {
        lemma_auto_spec_u64_to_from_le_bytes();
        assert(v@.subrange(0, 8) =~= spec_u64_to_le_bytes(k.k0));
        assert(v@.subrange(8, 16) =~= spec_u64_to_le_bytes(k.k1));
    }
    v
}

/// Decodes a key from sixteen little-endian bytes.
pub fn bytes_to_key(v: &Vec<u8>) -> (r: Option<Key>)
    ensures
        r == key_of_bytes(v@),
{
    if v.len() != 16 {
        return None;
    }
    let k0 = u64_from_le_bytes(slice_subrange(v.as_slice(), 0, 8));
    let k1 = u64_from_le_bytes(slice_subrange(v.as_slice(), 8, 16));
    Some(Key { k0, k1 })
}

/// Iterated mixing: the work loop of key derivation.
pub open spec fn kdf_iter(x: u64, n: nat) -> u64
    decreases n,
{
    if n == 0 {
        x
    } else {
        mix64(kdf_iter(x, (n - 1) as nat))
    }
}

/// The key derived from a master password and a well-formed salt.
pub open spec fn derived_key(pw: Seq<u8>, salt: Seq<u8>) -> Key {
    Key {
        k0: kdf_iter(mix_fold(0x243f6a8885a308d3, pw + salt), KDF_ROUNDS as nat),
        k1: kdf_iter(mix_fold(0x13198a2e03707344, salt + pw), KDF_ROUNDS as nat),
    }
}

/// The authentication hash stored for a user: derived in a domain separate
/// from the encryption key, so neither is computable from the other's output.
pub open spec fn password_hash(pw: Seq<u8>, salt: Seq<u8>) -> u64 {
    kdf_iter(mix_fold(0xa4093822299f31d0, salt + pw), KDF_ROUNDS as nat)
}

/// The authentication hash stored for a user, computed from the master
/// password and the user's salt.
pub fn hash_password(pw: &Vec<u8>, salt: &Vec<u8>) -> (r: u64)
    ensures
        r == password_hash(pw@, salt@),
{
    kdf_iter_exec(mix_fold_exec(0xa4093822299f31d0, salt, pw), KDF_ROUNDS)
}

/// The salted fingerprint a stored password is reduced to at scoring time:
/// its own domain, computed transiently, never persisted.
pub open spec fn fingerprint_hash(pw: Seq<u8>, salt: Seq<u8>) -> u64 {
    kdf_iter(mix_fold(0x082efa98ec4e6c89, salt + pw), KDF_ROUNDS as nat)
}

/// Computes the salted fingerprint of a plaintext password.
pub fn fingerprint(pw: &Vec<u8>, salt: &Vec<u8>) -> (r: u64)
    ensures
        r == fingerprint_hash(pw@, salt@),
{
    kdf_iter_exec(mix_fold_exec(0x082efa98ec4e6c89, salt, pw), KDF_ROUNDS)
}

fn kdf_iter_exec(x: u64, n: u64) -> (r: u64)
    ensures
        r == kdf_iter(x, n as nat),
{
    let mut acc: u64 = x;
    let mut i: u64 = 0;
    while i < n
        invariant
            i <= n,
            acc == kdf_iter(x, i as nat),
        decreases n - i,
    {
        acc = mix64_exec(acc);
        i = i + 1;
    }
    acc
}

/// Computes mix_fold of acc over a ++ b.
fn mix_fold_exec(acc: u64, a: &Vec<u8>, b: &Vec<u8>) -> (r: u64)
    ensures
        r == mix_fold(acc, a@ + b@),
{
    let mut h: u64 = acc;
    let mut i: usize = 0;
    while i < a.len()
        invariant
            i <= a.len(),
            h == mix_fold(acc, a@.subrange(0, i as int)),
        decreases a.len() - i,
    {
        proof {
            assert(a@.subrange(0, i + 1).drop_last() =~= a@.subrange(0, i as int));
            assert(a@.subrange(0, i + 1).last() == a@[i as int]);
        }
        h = mix64_exec(h ^ (a[i] as u64));
        i = i + 1;
    }
    proof {
        assert(a@.subrange(0, a@.len() as int) =~= a@);
        assert(a@ + b@.subrange(0, 0) =~= a@);
    }
    let mut j: usize = 0;
    while j < b.len()
        invariant
            j <= b.len(),
            h == mix_fold(acc, a@ + b@.subrange(0, j as int)),
        decreases b.len() - j,
    {
        proof {
            assert((a@ + b@.subrange(0, j + 1)).drop_last() =~= a@ + b@.subrange(0, j as int));
            assert((a@ + b@.subrange(0, j + 1)).last() == b@[j as int]);
        }
        h = mix64_exec(h ^ (b[j] as u64));
        j = j + 1;
    }
    proof {
        assert(a@ + b@.subrange(0, b@.len() as int) =~= a@ + b@);
    }
    h
}

/// Computes xor_fold over a ++ b.
fn xor_fold_exec(a: &Vec<u8>, b: &Vec<u8>) -> (r: u8)
    ensures
        r == xor_fold(a@ + b@),
{
    let mut h: u8 = 0;
    let mut i: usize = 0;
    while i < a.len()
        invariant
            i <= a.len(),
            h == xor_fold(a@.subrange(0, i as int)),
        decreases a.len() - i,
    {
        proof {
            assert(a@.subrange(0, i + 1).drop_last() =~= a@.subrange(0, i as int));
            assert(a@.subrange(0, i + 1).last() == a@[i as int]);
        }
        h = h ^ a[i];
        i = i + 1;
    }
    proof {
        assert(a@.subrange(0, a@.len() as int) =~= a@);
        assert(a@ + b@.subrange(0, 0) =~= a@);
    }
    let mut j: usize = 0;
    while j < b.len()
        invariant
            j <= b.len(),
            h == xor_fold(a@ + b@.subrange(0, j as int)),
        decreases b.len() - j,
    {
        proof {
            assert((a@ + b@.subrange(0, j + 1)).drop_last() =~= a@ + b@.subrange(0, j as int));
            assert((a@ + b@.subrange(0, j + 1)).last() == b@[j as int]);
        }
        h = h ^ b[j];
        j = j + 1;
    }
    proof {
        assert(a@ + b@.subrange(0, b@.len() as int) =~= a@ + b@);
    }
    h
}

/// Computes the tag over nonce and ciphertext.
fn mac_exec(key: &Key, nonce: &Vec<u8>, ct: &Vec<u8>) -> (r: u64)
    ensures
        r == mac(*key, nonce@, ct@),
{
    let parity = xor_fold_exec(nonce, ct) ^ ((key.k1 & 0xff) as u8);
    let mixed = mix_fold_exec(mix64_exec(key.k0), nonce, ct) % 0x100000000000000;
    assert(mixed < 0x100000000000000);
    mixed * 256 + (parity as u64)
}

/// Xors data against the keystream of key and nonce.
fn apply_stream_exec(key: &Key, nonce: &Vec<u8>, data: &Vec<u8>) -> (r: Vec<u8>)
    requires
        nonce@.len() == NONCE_LEN,
    ensures
        r@ == apply_stream(*key, nonce@, data@),
{
    let c = u64_from_le_bytes(slice_subrange(nonce.as_slice(), 0, 8));
    let f = u32_from_le_bytes(slice_subrange(nonce.as_slice(), 8, 12));
    let mut out: Vec<u8> = Vec::new();
    let mut i: usize = 0;
    while i < data.len()
        invariant
            i <= data.len(),
            out@.len() == i,
            c == nonce_counter(nonce@),
            f == nonce_filler(nonce@),
            forall|k: int|
                0 <= k < i ==> out@[k] == (data@[k] ^ ks_byte(
                    *key,
                    nonce_counter(nonce@),
                    nonce_filler(nonce@),
                    k as u64,
                )),
        decreases data.len() - i,
    {
        out.push(data[i] ^ ks_byte_exec(key, c, f, i as u64));
        i = i + 1;
    }
    proof {
        assert(out@ =~= apply_stream(*key, nonce@, data@));
    }
    out
}

/// The encryption engine for one key, with the nonce counter that keeps
/// every envelope it seals on a distinct nonce.
#[derive(Clone, Copy, Debug, PartialEq, Eq, Structural)]
pub struct CryptoEngine {
    pub key: Key,
    pub ctr: u64,
}

impl CryptoEngine {
    /// Derives the session key from the master password and the user's salt
    /// and readies an engine. Fails exactly on a malformed salt length.
    pub fn initialize(master_password: &Vec<u8>, user_salt: &Vec<u8>) -> (r: Result<
        CryptoEngine,
        CoreError,
    >)
        ensures
            r is Ok <==> user_salt@.len() == SALT_LEN,
            r matches Ok(e) ==> e.key == derived_key(master_password@, user_salt@) && e.ctr == 0,
            r is Err ==> r == Err::<CryptoEngine, CoreError>(CoreError::KeyDerivationError),
    {
        if user_salt.len() != SALT_LEN {
            return Err(CoreError::KeyDerivationError);
        }
        let a = mix_fold_exec(0x243f6a8885a308d3, master_password, user_salt);
        let b = mix_fold_exec(0x13198a2e03707344, user_salt, master_password);
        let key = Key { k0: kdf_iter_exec(a, KDF_ROUNDS), k1: kdf_iter_exec(b, KDF_ROUNDS) };
        Ok(CryptoEngine { key, ctr: 0 })
    }

    /// An engine over an already-derived key, with its counter at zero.
    pub fn with_key(key: Key) -> (r: CryptoEngine)
        ensures
            r.key == key,
            r.ctr == 0,
    {
        CryptoEngine { key, ctr: 0 }
    }

    /// Seals a plaintext: fresh nonce from the counter plus random filler,
    /// keystream cipher, authentication tag. Fails exactly when the nonce
    /// counter is exhausted, and then changes nothing.
    pub fn encrypt(&mut self, plaintext: &Vec<u8>) -> (r: Result<Envelope, CoreError>)
        ensures
            r is Ok <==> old(self).ctr < u64::MAX,
            r is Err ==> r == Err::<Envelope, CoreError>(CoreError::CryptoError) && *final(self)
                == *old(self),
            r matches Ok(e) ==> is_sealed(old(self).key, old(self).ctr, e@, plaintext@)
                && final(self).key == old(self).key && final(self).ctr == old(self).ctr + 1,
    {
        if self.ctr == u64::MAX {
            return Err(CoreError::CryptoError);
        }
        let mut nonce = u64_to_le_bytes(self.ctr);
        let mut filler = u32_to_le_bytes((sys::fresh_random_u64() & 0xffffffff) as u32);
        nonce.append(&mut filler);
        proof {
            assert(nonce@.subrange(0, 8) =~= spec_u64_to_le_bytes(old(self).ctr));
        }
        let ct = apply_stream_exec(&self.key, &nonce, plaintext);
        let tag = mac_exec(&self.key, &nonce, &ct);
        let e = Envelope { alg: ALG_ID, nonce, ct, tag };
        self.ctr = self.ctr + 1;
        Ok(e)
    }

    /// Opens an envelope. Fails closed, with AuthenticationFailure and no
    /// partial plaintext, on an unknown algorithm id, a truncated nonce, or
    /// a tag mismatch; otherwise returns exactly the modelled plaintext.
    pub fn decrypt(&self, e: &Envelope) -> (r: Result<Vec<u8>, CoreError>)
        ensures
            decrypt_model(self.key, e@) is Ok <==> r is Ok,
            r matches Ok(p) ==> decrypt_model(self.key, e@) == Ok::<Seq<u8>, CoreError>(p@),
            r is Err ==> r == Err::<Vec<u8>, CoreError>(CoreError::AuthenticationFailure),
    {
        if e.alg != ALG_ID {
            return Err(CoreError::AuthenticationFailure);
        }
        if e.nonce.len() != NONCE_LEN {
            return Err(CoreError::AuthenticationFailure);
        }
        let expected = mac_exec(&self.key, &e.nonce, &e.ct);
        if e.tag != expected {
            return Err(CoreError::AuthenticationFailure);
        }
        Ok(apply_stream_exec(&self.key, &e.nonce, &e.ct))
    }

    /// Re-encrypts an envelope under this engine's key without exposing the
    /// plaintext beyond the call: the old key opens it, this engine seals
    /// the same plaintext afresh.
    pub fn rotate(&mut self, old_key: &Key, e: &Envelope) -> (r: Result<Envelope, CoreError>)
        ensures
            r is Err ==> *final(self) == *old(self),
            decrypt_model(*old_key, e@) is Err ==> r == Err::<Envelope, CoreError>(
                CoreError::AuthenticationFailure,
            ),
            r matches Ok(e2) ==> decrypt_model(*old_key, e@) matches Ok(p) && is_sealed(
                old(self).key,
                old(self).ctr,
                e2@,
                p,
            ) && final(self).key == old(self).key && final(self).ctr == old(self).ctr + 1,
            decrypt_model(*old_key, e@) is Ok && old(self).ctr < u64::MAX ==> r is Ok,
    {
        let opener = CryptoEngine { key: *old_key, ctr: 0 };
        let p = match opener.decrypt(e) {
            Ok(p) => p,
            Err(_) => {
                return Err(CoreError::AuthenticationFailure);
            },
        };
        self.encrypt(&p)
    }
}

// Small bit-level facts used by the laws below.

proof fn lemma_xor_cancel_u8()
    by (bit_vector)
    ensures
        forall|x: u8, y: u8| #[trigger] ((x ^ y) ^ y) == x,
{
}

proof fn lemma_xor_shift_u8()
    by (bit_vector)
    ensures
        forall|x: u8, a: u8, b: u8| #[trigger] (x ^ (a ^ b)) == ((x ^ a) ^ b),
        forall|a: u8, b: u8| #[trigger] (a ^ b) == (b ^ a),
{
}

proof fn lemma_xor_flip_changes_u8(a: u8, m: u8)
    by (bit_vector)
    requires
        m != 0,
    ensures
        a ^ m != a,
{
}

proof fn lemma_bit_mask_nonzero_u8(b: u8)
    by (bit_vector)
    requires
        b < 8,
    ensures
        (1u8 << b) != 0,
{
}

proof fn lemma_bit_flip_changes_u64(t: u64, b: u64)
    by (bit_vector)
    requires
        b < 64,
    ensures
        t ^ (1u64 << b) != t,
{
}

/// Changing one element of a sequence by xor with m changes its xor-fold by
/// exactly m.
proof fn lemma_xor_fold_update(s: Seq<u8>, i: int, m: u8)
    requires
        0 <= i < s.len(),
    ensures
        xor_fold(s.update(i, s[i] ^ m)) == xor_fold(s) ^ m,
    decreases s.len(),
{
    lemma_xor_shift_u8();
    let s2 = s.update(i, s[i] ^ m);
    if i == s.len() - 1 {
        assert(s2.drop_last() =~= s.drop_last());
        assert(s2.last() == s[i] ^ m);
    } else {
        assert(s2.drop_last() =~= s.drop_last().update(i, s.drop_last()[i] ^ m));
        lemma_xor_fold_update(s.drop_last(), i, m);
        assert(s2.last() == s.last());
    }
}

/// Two tags whose parity bytes differ are distinct.
proof fn lemma_tag_separates(m1: u64, m2: u64, p1: u8, p2: u8)
    requires
        m1 < 0x100000000000000,
        m2 < 0x100000000000000,
        p1 != p2,
    ensures
        (m1 * 256 + p1) as u64 != (m2 * 256 + p2) as u64,
{
    assert(m1 * 256 + p1 < 0x10000000000000000) by (nonlinear_arith)
        requires
            m1 < 0x100000000000000,
            p1 < 256,
    ;
    assert(m2 * 256 + p2 < 0x10000000000000000) by (nonlinear_arith)
        requires
            m2 < 0x100000000000000,
            p2 < 256,
    ;
    assert(m1 * 256 + p1 != m2 * 256 + p2) by (nonlinear_arith)
        requires
            p1 < 256,
            p2 < 256,
            p1 != p2,
    ;
}

/// If the parities of (nonce1 ++ ct1) and (nonce2 ++ ct2) differ, the tags
/// differ.
proof fn lemma_mac_parity(key: Key, n1: Seq<u8>, c1: Seq<u8>, n2: Seq<u8>, c2: Seq<u8>)
    requires
        xor_fold(n1 + c1) != xor_fold(n2 + c2),
    ensures
        mac(key, n1, c1) != mac(key, n2, c2),
{
    let kb = (key.k1 & 0xff) as u8;
    lemma_xor_cancel_u8();
    assert(xor_fold(n1 + c1) ^ kb != xor_fold(n2 + c2) ^ kb) by {
        if xor_fold(n1 + c1) ^ kb == xor_fold(n2 + c2) ^ kb {
            assert((xor_fold(n1 + c1) ^ kb) ^ kb == (xor_fold(n2 + c2) ^ kb) ^ kb);
        }
    }
    lemma_tag_separates(
        mix_fold(mix64(key.k0), n1 + c1) % 0x100000000000000,
        mix_fold(mix64(key.k0), n2 + c2) % 0x100000000000000,
        xor_fold(n1 + c1) ^ kb,
        xor_fold(n2 + c2) ^ kb,
    );
}

// ----------------------------------------------------------------------
// Laws of the engine.
// ----------------------------------------------------------------------

/// Round trip: decrypting a sealed envelope under the sealing key restores
/// the plaintext exactly, for every plaintext and key.
pub proof fn lemma_round_trip(key: Key, c: u64, e: EnvelopeModel, p: Seq<u8>)
    requires
        is_sealed(key, c, e, p),
    ensures
        decrypt_model(key, e) == Ok::<Seq<u8>, CoreError>(p),
{
    lemma_xor_cancel_u8();
    assert(apply_stream(key, e.nonce, e.ct) =~= p);
}

/// Tamper detection, ciphertext: flipping any single bit of any ciphertext
/// byte of a sealed envelope makes decryption fail with
/// AuthenticationFailure, never return altered plaintext.
pub proof fn lemma_tamper_ct(key: Key, c: u64, e: EnvelopeModel, p: Seq<u8>, i: int, b: u8)
    requires
        is_sealed(key, c, e, p),
        0 <= i < e.ct.len(),
        b < 8,
    ensures
        decrypt_model(
            key,
            EnvelopeModel { ct: e.ct.update(i, e.ct[i] ^ (1u8 << b)), ..e },
        ) == Err::<Seq<u8>, CoreError>(CoreError::AuthenticationFailure),
{
    let m = 1u8 << b;
    lemma_bit_mask_nonzero_u8(b);
    let ct2 = e.ct.update(i, e.ct[i] ^ m);
    assert(e.nonce + ct2 =~= (e.nonce + e.ct).update(e.nonce.len() + i, (e.nonce + e.ct)[e.nonce.len() + i] ^ m));
    lemma_xor_fold_update(e.nonce + e.ct, e.nonce.len() + i, m);
    lemma_xor_flip_changes_u8(xor_fold(e.nonce + e.ct), m);
    lemma_mac_parity(key, e.nonce, ct2, e.nonce, e.ct);
}

/// Tamper detection, nonce: flipping any single bit of any nonce byte of a
/// sealed envelope makes decryption fail with AuthenticationFailure.
pub proof fn lemma_tamper_nonce(key: Key, c: u64, e: EnvelopeModel, p: Seq<u8>, i: int, b: u8)
    requires
        is_sealed(key, c, e, p),
        0 <= i < e.nonce.len(),
        b < 8,
    ensures
        decrypt_model(
            key,
            EnvelopeModel { nonce: e.nonce.update(i, e.nonce[i] ^ (1u8 << b)), ..e },
        ) == Err::<Seq<u8>, CoreError>(CoreError::AuthenticationFailure),
{
    let m = 1u8 << b;
    lemma_bit_mask_nonzero_u8(b);
    let n2 = e.nonce.update(i, e.nonce[i] ^ m);
    assert(n2 + e.ct =~= (e.nonce + e.ct).update(i, (e.nonce + e.ct)[i] ^ m));
    lemma_xor_fold_update(e.nonce + e.ct, i, m);
    lemma_xor_flip_changes_u8(xor_fold(e.nonce + e.ct), m);
    lemma_mac_parity(key, n2, e.ct, e.nonce, e.ct);
}

/// Tamper detection, tag: flipping any single bit of the tag of a sealed
/// envelope makes decryption fail with AuthenticationFailure.
pub proof fn lemma_tamper_tag(key: Key, c: u64, e: EnvelopeModel, p: Seq<u8>, b: u64)
    requires
        is_sealed(key, c, e, p),
        b < 64,
    ensures
        decrypt_model(key, EnvelopeModel { tag: e.tag ^ (1u64 << b), ..e }) == Err::<
            Seq<u8>,
            CoreError,
        >(CoreError::AuthenticationFailure),
{
    lemma_bit_flip_changes_u64(e.tag, b);
}

/// Tamper detection, algorithm id: flipping any single bit of the algorithm
/// id of a sealed envelope makes decryption fail with AuthenticationFailure.
pub proof fn lemma_tamper_alg(key: Key, c: u64, e: EnvelopeModel, p: Seq<u8>, b: u8)
    requires
        is_sealed(key, c, e, p),
        b < 8,
    ensures
        decrypt_model(key, EnvelopeModel { alg: e.alg ^ (1u8 << b), ..e }) == Err::<
            Seq<u8>,
            CoreError,
        >(CoreError::AuthenticationFailure),
{
    lemma_bit_mask_nonzero_u8(b);
    lemma_xor_flip_changes_u8(e.alg, 1u8 << b);
}

/// Nonce uniqueness: envelopes sealed at distinct counter values carry
/// distinct nonces, whatever the random filler bytes came out as. Since the
/// engine increments its counter on every seal, no nonce is ever reused
/// under one key.
pub proof fn lemma_nonce_unique(
    key: Key,
    c1: u64,
    c2: u64,
    e1: EnvelopeModel,
    e2: EnvelopeModel,
    p1: Seq<u8>,
    p2: Seq<u8>,
)
    requires
        is_sealed(key, c1, e1, p1),
        is_sealed(key, c2, e2, p2),
        c1 != c2,
    ensures
        e1.nonce != e2.nonce,
{
    lemma_auto_spec_u64_to_from_le_bytes();
    if e1.nonce == e2.nonce {
        assert(e1.nonce.subrange(0, 8) == e2.nonce.subrange(0, 8));
        assert(spec_u64_from_le_bytes(spec_u64_to_le_bytes(c1)) == spec_u64_from_le_bytes(
            spec_u64_to_le_bytes(c2),
        ));
    }
}

} // verus!
