//! Session cryptography.
//!
//! The worker and the master agree on a symmetric session key through an
//! ephemeral Diffie-Hellman exchange; the shared secret is expanded into the
//! session key by a keyed derivation. Test payloads are enciphered by a
//! keystream drawn from the session key and a per-payload nonce; the cipher
//! is its own inverse, which makes the round trip a theorem rather than a
//! promise.

use vstd::prelude::*;

verus! {

/// The worker's ephemeral private key. The key itself is opaque; it only
/// feeds the exchange below. Verus refuses the declaration of the outside
/// type because its generics are bound by an outside trait, so the value is
/// held behind this opaque struct instead.
#[verifier::external_body]
pub struct SessionSecret {
    secret: k256::ecdh::EphemeralSecret,
}

/// A peer's public key, decoded from its SEC-1 bytes; opaque for the same
/// reason as the session secret.
#[verifier::external_body]
pub struct PeerKey {
    key: k256::PublicKey,
}

/// Relies on `EphemeralSecret::random`: a fresh random key; nothing is
/// promised of its value.
#[verifier::external_body]
pub fn generate_secret() -> SessionSecret {
    SessionSecret { secret: k256::ecdh::EphemeralSecret::random(&mut rand::thread_rng()) }
}

/// Relies on `EphemeralSecret::public_key` and `PublicKey::to_sec1_bytes`:
/// the SEC-1 encoding of the secret's public key is nonempty.
#[verifier::external_body]
pub fn public_key_bytes(sk: &SessionSecret) -> (r: Vec<u8>)
    ensures
        r@.len() > 0,
{
    sk.secret.public_key().to_sec1_bytes().into_vec()
}

/// Whether a byte string is the SEC-1 encoding of a public key on the
/// session's curve.
pub uninterp spec fn parses_as_public_key(bytes: Seq<u8>) -> bool;

/// Relies on `PublicKey::from_sec1_bytes`: decodes a SEC-1 public key; it
/// succeeds or fails as a function of the bytes alone.
#[verifier::external_body]
pub fn parse_public_key(bytes: &[u8]) -> (r: Option<PeerKey>)
    ensures
        r is Some <==> parses_as_public_key(bytes@),
{
    match k256::PublicKey::from_sec1_bytes(bytes) {
        Ok(key) => Some(PeerKey { key }),
        Err(_) => None,
    }
}

/// Relies on `EphemeralSecret::diffie_hellman` and
/// `SharedSecret::raw_secret_bytes`: the raw shared secret of the exchange
/// is one field element of 32 bytes.
#[verifier::external_body]
pub fn diffie_hellman_bytes(sk: &SessionSecret, pk: &PeerKey) -> (r: Vec<u8>)
    ensures
        r@.len() == 32,
{
    sk.secret.diffie_hellman(&pk.key).raw_secret_bytes().to_vec()
}

/// What the key derivation returns for given material.
pub uninterp spec fn session_key_of(material: Seq<u8>) -> Seq<u8>;

/// Relies on `blake3::derive_key` under a fixed context string: a 32-byte
/// key that depends on the material alone.
#[verifier::external_body]
pub fn derive_session_key(material: &[u8]) -> (r: Vec<u8>)
    ensures
        r@ == session_key_of(material@),
        r@.len() == 32,
{
    blake3::derive_key("pms-slave v1 session key", material).to_vec()
}

/// What the digest of a byte string is.
pub uninterp spec fn digest_of(data: Seq<u8>) -> Seq<u8>;

/// Relies on `blake3::hash`: a 32-byte digest that depends on the data
/// alone.
#[verifier::external_body]
pub fn hash_bytes(data: &[u8]) -> (r: Vec<u8>)
    ensures
        r@ == digest_of(data@),
        r@.len() == 32,
{
    blake3::hash(data).as_bytes().to_vec()
}

/// What one keystream block is for a key, a payload nonce and a block
/// counter.
pub uninterp spec fn keystream_block(key: Seq<u8>, nonce: u64, counter: u64) -> Seq<u8>;

/// Relies on `blake3::keyed_hash` over the nonce and counter: a 32-byte
/// keystream block that depends on the key, the nonce and the counter alone.
#[verifier::external_body]
fn keystream_block_bytes(key: &[u8], nonce: u64, counter: u64) -> (r: Vec<u8>)
    requires
        key@.len() == 32,
    ensures
        r@ == keystream_block(key@, nonce, counter),
        r@.len() == 32,
{
    let mut k = [0u8; 32];
    k.copy_from_slice(key);
    let mut inp = [0u8; 16];
    inp[..8].copy_from_slice(&nonce.to_be_bytes());
    inp[8..].copy_from_slice(&counter.to_be_bytes());
    blake3::keyed_hash(&k, &inp).as_bytes().to_vec()
}

/// The keystream byte under a given key and nonce at a given offset.
pub open spec fn keystream_byte(key: Seq<u8>, nonce: u64, i: int) -> u8 {
    keystream_block(key, nonce, (i / 32) as u64)[i % 32]
}

/// A byte string enciphered against the keystream of a key and a nonce.
/// Applying it twice restores the input.
pub open spec fn spec_xor_stream(key: Seq<u8>, nonce: u64, data: Seq<u8>) -> Seq<u8> {
    Seq::new(data.len(), |i: int| data[i] ^ keystream_byte(key, nonce, i))
}

/// Encipher or decipher a payload against the session keystream. The same
/// operation is both directions of the cipher.
pub fn xor_stream(key: &[u8], nonce: u64, data: &[u8]) -> (r: Vec<u8>)
    requires
        key@.len() == 32,
    ensures
        r@ == spec_xor_stream(key@, nonce, data@),
{
    let n = data.len();
    let mut out: Vec<u8> = Vec::new();
    let mut i: usize = 0;
    let mut block: Vec<u8> = Vec::new();
    while i < n
        invariant
            0 <= i <= n == data@.len(),
            n <= usize::MAX,
            key@.len() == 32,
            out@.len() == i,
            forall|j: int| 0 <= j < i ==> out@[j] == data@[j] ^ keystream_byte(key@, nonce, j),
            i % 32 != 0 ==> block@ == keystream_block(key@, nonce, (i as int / 32) as u64)
                && block@.len() == 32,
        decreases n - i,
    {
        if i % 32 == 0 {
            block = keystream_block_bytes(key, nonce, (i / 32) as u64);
        }
        let b = *vstd::slice::slice_index_get(data, i) ^ block[i % 32];
        out.push(b);
        proof {
            assert(block@[i as int % 32] == keystream_byte(key@, nonce, i as int));
        }
        i = i + 1;
        proof {
            if i % 32 != 0 {
                assert((i as int) / 32 == (i as int - 1) / 32);
            }
        }
    }
    proof {
        assert(out@ =~= spec_xor_stream(key@, nonce, data@));
    }
    out
}

/// Enciphering twice with the same key and nonce restores the payload.
pub proof fn lemma_xor_stream_roundtrip(key: Seq<u8>, nonce: u64, data: Seq<u8>)
    ensures
        spec_xor_stream(key, nonce, spec_xor_stream(key, nonce, data)) =~= data,
{
    assert forall|i: int| 0 <= i < data.len() implies spec_xor_stream(
        key,
        nonce,
        spec_xor_stream(key, nonce, data),
    )[i] == data[i] by {
        let k = keystream_byte(key, nonce, i);
        let d = data[i];
        assert((d ^ k) ^ k == d) by (bit_vector);
    }
}

/// Encipher then decipher a payload with the session key: the original
/// bytes come back.
pub fn encrypt_then_decrypt(key: &[u8], nonce: u64, data: &[u8]) -> (r: Vec<u8>)
    requires
        key@.len() == 32,
    ensures
        r@ == data@,
{
    let c = xor_stream(key, nonce, data);
    let p = xor_stream(key, nonce, c.as_slice());
    proof {
        lemma_xor_stream_roundtrip(key@, nonce, data@);
    }
    p
}

} // verus!
