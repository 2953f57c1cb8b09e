//! Encryption of stored credentials with AES-256-GCM (through `ring`),
//! exchanged as lowercase hexadecimal text.
use vstd::prelude::*;
use vstd::utf8::*;
use vstd::string::*;
use crate::hexcodec::{hex_encode, hex_decode, hex_encode_spec, hex_decode_spec, lemma_hex_roundtrip, lemma_hex_encode_lower, is_lower_hex_char};
use crate::text::{path_join, path_join_spec};
use crate::home::home_dir;

verus! {

broadcast use vstd::utf8::encode_utf8_decode_utf8, vstd::utf8::encode_utf8_valid_utf8;

/// Length of an AES-256 key in bytes.
pub const KEY_LEN: usize = 32;

/// Length of an AES-GCM authentication tag in bytes.
pub const TAG_LEN: usize = 16;

/// The largest input, in bytes, that AES-GCM in `ring` seals or opens:
/// (2^32 - 2) blocks of 16 bytes.
pub open spec fn aes_gcm_max_input() -> int {
    68719476704
}

/// Result of `ring`'s AES-256-GCM sealing (`seal_in_place_separate_tag`
/// with an empty associated data): the ciphertext followed by the tag, for
/// a key, a nonce and a plaintext.
pub uninterp spec fn aes256gcm_seal(key: Seq<u8>, nonce: Seq<u8>, plaintext: Seq<u8>) -> Seq<u8>;

/// Result of `ring`'s AES-256-GCM opening (`open_in_place` with an empty
/// associated data) of ciphertext-and-tag bytes: the plaintext, or `None`
/// where authentication fails.
pub uninterp spec fn aes256gcm_open(key: Seq<u8>, nonce: Seq<u8>, sealed: Seq<u8>) -> Option<Seq<u8>>;

/// Why an AEAD call of `ring` failed.
#[derive(Debug, Clone, Copy, PartialEq, Eq, Structural)]
pub enum AeadError {
    /// The key was refused (its length is not the algorithm's key length).
    KeyRejected,
    /// Sealing or opening failed.
    Failed,
}

#[verifier::external_type_specification]
#[verifier::external_body]
pub struct ExFromUtf8Error(std::string::FromUtf8Error);

/// `ring` AES-256-GCM sealing: builds the key with `UnboundKey::new` and
/// `LessSafeKey::new`, then calls `seal_in_place_separate_tag` on a copy
/// of the plaintext with the given nonce and empty associated data.
/// Claims, as the source shows: the key is refused exactly when it is not
/// 32 bytes long; sealing fails exactly when the plaintext is longer than
/// (2^32 - 2) * 16 bytes; the ciphertext is as long as the plaintext, the
/// tag is 16 bytes, and opening ciphertext-and-tag with the same key and
/// nonce gives the plaintext back.
#[verifier::external_body]
pub(crate) fn aes256gcm_seal_separate_tag(key: &[u8], nonce: &[u8], plaintext: &[u8]) -> (r: Result<(Vec<u8>, Vec<u8>), AeadError>)
    requires
        nonce@.len() == 12,
    ensures
        key@.len() != 32 ==> r is Err && r->Err_0 == AeadError::KeyRejected,
        key@.len() == 32 && plaintext@.len() > aes_gcm_max_input() ==> r is Err && r->Err_0 == AeadError::Failed,
        key@.len() == 32 && plaintext@.len() <= aes_gcm_max_input() ==> r is Ok,
        r is Ok ==> r->Ok_0.0@ + r->Ok_0.1@ == aes256gcm_seal(key@, nonce@, plaintext@),
        r is Ok ==> r->Ok_0.0@.len() == plaintext@.len(),
        r is Ok ==> r->Ok_0.1@.len() == 16,
        r is Ok ==> aes256gcm_open(key@, nonce@, r->Ok_0.0@ + r->Ok_0.1@) == Some(plaintext@),
{
    let unbound = match ring::aead::UnboundKey::new(&ring::aead::AES_256_GCM, key) {
        Ok(k) => k,
        Err(_) => return Err(AeadError::KeyRejected),
    };
    let nonce_value = match ring::aead::Nonce::try_assume_unique_for_key(nonce) {
        Ok(n) => n,
        Err(_) => return Err(AeadError::Failed),
    };
    let sealing = ring::aead::LessSafeKey::new(unbound);
    let mut in_out = plaintext.to_vec();
    match sealing.seal_in_place_separate_tag(nonce_value, ring::aead::Aad::empty(), &mut in_out) {
        Ok(tag) => Ok((in_out, tag.as_ref().to_vec())),
        Err(_) => Err(AeadError::Failed),
    }
}

/// `ring` AES-256-GCM opening: builds the key with `UnboundKey::new` and
/// `LessSafeKey::new`, then calls `open_in_place` on a copy of the
/// ciphertext-and-tag bytes with the given nonce and empty associated data.
/// Claims: the key is refused exactly when it is not 32 bytes long;
/// otherwise the result is the named opening result.
#[verifier::external_body]
pub(crate) fn aes256gcm_open_in_place(key: &[u8], nonce: &[u8], sealed: &[u8]) -> (r: Result<Vec<u8>, AeadError>)
    requires
        nonce@.len() == 12,
    ensures
        key@.len() != 32 ==> r is Err && r->Err_0 == AeadError::KeyRejected,
        key@.len() == 32 && aes256gcm_open(key@, nonce@, sealed@) is Some ==> r is Ok && r->Ok_0@ == aes256gcm_open(key@, nonce@, sealed@)->Some_0,
        key@.len() == 32 && aes256gcm_open(key@, nonce@, sealed@) is None ==> r is Err && r->Err_0 == AeadError::Failed,
{
    let unbound = match ring::aead::UnboundKey::new(&ring::aead::AES_256_GCM, key) {
        Ok(k) => k,
        Err(_) => return Err(AeadError::KeyRejected),
    };
    let nonce_value = match ring::aead::Nonce::try_assume_unique_for_key(nonce) {
        Ok(n) => n,
        Err(_) => return Err(AeadError::Failed),
    };
    let opening = ring::aead::LessSafeKey::new(unbound);
    let mut in_out = sealed.to_vec();
    match opening.open_in_place(nonce_value, ring::aead::Aad::empty(), &mut in_out) {
        Ok(p) => Ok(p.to_vec()),
        Err(_) => Err(AeadError::Failed),
    }
}

/// `ring::rand::SystemRandom::fill` on a fresh buffer of `len` bytes. The
/// bytes are random; only their number is stated.
#[verifier::external_body]
pub(crate) fn random_bytes(len: usize) -> (r: Result<Vec<u8>, AeadError>)
    ensures
        r matches Ok(v) ==> v@.len() == len,
{
    let mut v = vec![0u8; len];
    match ring::rand::SecureRandom::fill(&ring::rand::SystemRandom::new(), &mut v) {
        Ok(()) => Ok(v),
        Err(_) => Err(AeadError::Failed),
    }
}

/// `String::from_utf8`: succeeds exactly on valid UTF-8, and then holds the
/// characters that the bytes encode.
#[verifier::external_body]
pub(crate) fn string_from_utf8(bytes: Vec<u8>) -> (r: Result<String, std::string::FromUtf8Error>)
    ensures
        r is Ok <==> valid_utf8(bytes@),
        r matches Ok(s) ==> s@ == decode_utf8(bytes@),
{
    String::from_utf8(bytes)
}

/// The nonce that a counter value stands for: eight zero bytes, then the
/// counter in big-endian order.
pub open spec fn counter_nonce(counter: u32) -> Seq<u8> {
    seq![
        0u8, 0u8, 0u8, 0u8, 0u8, 0u8, 0u8, 0u8,
        (counter / 16777216) as u8,
        ((counter / 65536) % 256) as u8,
        ((counter / 256) % 256) as u8,
        (counter % 256) as u8,
    ]
}

/// Distinct counter values stand for distinct nonces, so a sequence never
/// hands out the same nonce twice.
pub proof fn law_counter_nonces_distinct(a: u32, b: u32)
    requires
        a != b,
    ensures
        counter_nonce(a) != counter_nonce(b),
{
    assert(a / 16777216 != b / 16777216 || (a / 65536) % 256 != (b / 65536) % 256
        || (a / 256) % 256 != (b / 256) % 256 || a % 256 != b % 256) by (bit_vector)
        requires
            a != b,
    ;
    if a / 16777216 != b / 16777216 {
        assert(counter_nonce(a)[8] != counter_nonce(b)[8]);
    } else if (a / 65536) % 256 != (b / 65536) % 256 {
        assert(counter_nonce(a)[9] != counter_nonce(b)[9]);
    } else if (a / 256) % 256 != (b / 256) % 256 {
        assert(counter_nonce(a)[10] != counter_nonce(b)[10]);
    } else {
        assert(counter_nonce(a)[11] != counter_nonce(b)[11]);
    }
}

/// A sequence of 96-bit nonces drawn from a 32-bit counter.
pub struct CounterNonceSequence {
    counter: u32,
}

impl CounterNonceSequence {
    /// The counter value that the next nonce is drawn from.
    pub closed spec fn next_counter(&self) -> u32 {
        self.counter
    }

    /// A sequence whose first nonce comes from counter 0.
    pub fn new() -> (r: CounterNonceSequence)
        ensures
            r.next_counter() == 0,
    {
        CounterNonceSequence { counter: 0 }
    }

    /// The next nonce of the sequence; the counter moves on by one.
    pub fn advance(&mut self) -> (nonce: [u8; 12])
        requires
            old(self).next_counter() < u32::MAX,
        ensures
            nonce@ == counter_nonce(old(self).next_counter()),
            final(self).next_counter() == old(self).next_counter() + 1,
    {
        let c = self.counter;
        let b0: u8 = (c / 16777216) as u8;
        let b1: u8 = ((c / 65536) % 256) as u8;
        let b2: u8 = ((c / 256) % 256) as u8;
        let b3: u8 = (c % 256) as u8;
        self.counter = c + 1;
        let nonce: [u8; 12] = [0, 0, 0, 0, 0, 0, 0, 0, b0, b1, b2, b3];
        assert(nonce@ =~= counter_nonce(c));
        nonce
    }
}

/// Why encryption or decryption of a credential failed.
#[derive(Debug, Clone, Copy, PartialEq, Eq, Structural)]
pub enum EncryptError {
    /// No home directory to keep the key in.
    HomeDirUnavailable,
    /// The random key could not be generated.
    KeyGeneration,
    /// The key was refused for encryption.
    EncryptionKey,
    /// Sealing failed.
    EncryptionFailed,
    /// The text is not hexadecimal.
    InvalidHex,
    /// Fewer bytes than an authentication tag.
    CiphertextTooShort,
    /// The key was refused for decryption.
    DecryptionKey,
    /// Authentication failed.
    DecryptionFailed,
    /// The decrypted bytes are not UTF-8.
    InvalidUtf8,
}

/// The text that encrypting `plaintext` with `key` gives.
pub open spec fn encrypt_spec(key: Seq<u8>, plaintext: Seq<char>) -> Result<Seq<char>, EncryptError> {
    if key.len() != 32 {
        Err(EncryptError::EncryptionKey)
    } else if encode_utf8(plaintext).len() > aes_gcm_max_input() {
        Err(EncryptError::EncryptionFailed)
    } else {
        Ok(hex_encode_spec(aes256gcm_seal(key, counter_nonce(0), encode_utf8(plaintext))))
    }
}

/// What decrypting the text `text` with `key` gives.
pub open spec fn decrypt_spec(key: Seq<u8>, text: Seq<char>) -> Result<Seq<char>, EncryptError> {
    match hex_decode_spec(encode_utf8(text)) {
        None => Err(EncryptError::InvalidHex),
        Some(sealed) => if sealed.len() < 16 {
            Err(EncryptError::CiphertextTooShort)
        } else if key.len() != 32 {
            Err(EncryptError::DecryptionKey)
        } else {
            match aes256gcm_open(key, counter_nonce(0), sealed) {
                None => Err(EncryptError::DecryptionFailed),
                Some(p) => if valid_utf8(p) {
                    Ok(decode_utf8(p))
                } else {
                    Err(EncryptError::InvalidUtf8)
                },
            }
        },
    }
}

/// The all-zero 96-bit nonce.
pub open spec fn zero_nonce() -> Seq<u8> {
    Seq::new(12, |i: int| 0u8)
}

/// Credentials are sealed under the all-zero 96-bit nonce (the first of a
/// fresh counter): with a 32-byte key, encrypting gives the lowercase hex
/// of the ciphertext and tag that AES-256-GCM makes of the UTF-8 bytes
/// under that nonce; decrypting opens the hex-decoded bytes under the same
/// nonce, so text written with one key is read back with it.
pub proof fn law_credentials_use_the_zero_nonce(key: Seq<u8>, plaintext: Seq<char>, text: Seq<char>)
    requires
        key.len() == 32,
    ensures
        counter_nonce(0) == zero_nonce(),
        encode_utf8(plaintext).len() <= aes_gcm_max_input() ==> encrypt_spec(key, plaintext) is Ok
            && encrypt_spec(key, plaintext)->Ok_0 == hex_encode_spec(aes256gcm_seal(key, zero_nonce(), encode_utf8(plaintext))),
        hex_decode_spec(encode_utf8(text)) is Some && hex_decode_spec(encode_utf8(text))->Some_0.len() >= 16
            && aes256gcm_open(key, zero_nonce(), hex_decode_spec(encode_utf8(text))->Some_0) is None
            ==> decrypt_spec(key, text) is Err && decrypt_spec(key, text)->Err_0 == EncryptError::DecryptionFailed,
        hex_decode_spec(encode_utf8(text)) is Some && hex_decode_spec(encode_utf8(text))->Some_0.len() >= 16
            && aes256gcm_open(key, zero_nonce(), hex_decode_spec(encode_utf8(text))->Some_0) is Some
            && valid_utf8(aes256gcm_open(key, zero_nonce(), hex_decode_spec(encode_utf8(text))->Some_0)->Some_0)
            ==> decrypt_spec(key, text) is Ok
                && decrypt_spec(key, text)->Ok_0 == decode_utf8(aes256gcm_open(key, zero_nonce(), hex_decode_spec(encode_utf8(text))->Some_0)->Some_0),
{
    assert(counter_nonce(0) =~= zero_nonce());
}

/// A result over strings, taken by its characters.
pub open spec fn string_result(r: Result<String, EncryptError>) -> Result<Seq<char>, EncryptError> {
    match r {
        Ok(s) => Ok(s@),
        Err(e) => Err(e),
    }
}

/// The UTF-8 encoding of a character sequence has at least one byte per
/// character.
pub proof fn lemma_utf8_len_at_least_chars(s: Seq<char>)
    ensures
        encode_utf8(s).len() >= s.len(),
    decreases s.len(),
{
    if s.len() > 0 {
        lemma_utf8_len_at_least_chars(s.drop_first());
        let c = s[0] as u32;
        assert(encode_scalar(c).len() >= 1);
    }
}

/// Encrypts and decrypts credentials with a 256-bit key.
pub struct Encryptor {
    key_bytes: Vec<u8>,
}

impl Encryptor {
    /// The key's bytes.
    pub closed spec fn key(&self) -> Seq<u8> {
        self.key_bytes@
    }

    /// A fresh random 256-bit key.
    pub fn generate_key() -> (r: Result<Vec<u8>, EncryptError>)
        ensures
            r matches Ok(k) ==> k@.len() == KEY_LEN,
            r matches Err(e) ==> e == EncryptError::KeyGeneration,
    {
        match random_bytes(KEY_LEN) {
            Ok(k) => Ok(k),
            Err(_) => Err(EncryptError::KeyGeneration),
        }
    }

    /// An encryptor over the stored key, or over a freshly generated key
    /// where none is stored (the caller then stores `key_bytes()`).
    pub fn new(stored_key: Option<Vec<u8>>) -> (r: Result<Encryptor, EncryptError>)
        ensures
            stored_key matches Some(k) ==> r is Ok && r->Ok_0.key() == k@,
            stored_key is None ==> (r matches Ok(e) ==> e.key().len() == KEY_LEN),
            r matches Err(e) ==> stored_key is None && e == EncryptError::KeyGeneration,
    {
        match stored_key {
            Some(k) => Ok(Encryptor { key_bytes: k }),
            None => {
                let k = Self::generate_key()?;
                Ok(Encryptor { key_bytes: k })
            },
        }
    }

    /// The key's bytes, to be stored.
    pub fn key_bytes(&self) -> (r: &[u8])
        ensures
            r@ == self.key(),
    {
        self.key_bytes.as_slice()
    }

    /// Where the key is kept: `.es_client/.key` under the home directory.
    pub fn get_key_path() -> (r: Result<String, EncryptError>)
        ensures
            r matches Ok(p) ==> exists|home: Seq<char>|
                #[trigger] path_join_spec(path_join_spec(home, ".es_client"@), ".key"@) == p@,
            r matches Err(e) ==> e == EncryptError::HomeDirUnavailable,
    {
        match home_dir() {
            None => Err(EncryptError::HomeDirUnavailable),
            Some(home) => Ok(Self::key_path_under(home.as_str())),
        }
    }

    /// Where the key is kept under the given home directory.
    pub fn key_path_under(home: &str) -> (r: String)
        ensures
            r@ == path_join_spec(path_join_spec(home@, ".es_client"@), ".key"@),
    {
        let dir = path_join(home, ".es_client");
        path_join(dir.as_str(), ".key")
    }

    /// Encrypts `plaintext` under the first nonce of a fresh counter and
    /// returns ciphertext and tag as lowercase hexadecimal text. Whatever
    /// it returns decrypts to `plaintext`, and differs from it.
    pub fn encrypt(&self, plaintext: &str) -> (r: Result<String, EncryptError>)
        ensures
            string_result(r) == encrypt_spec(self.key(), plaintext@),
            r matches Ok(h) ==> decrypt_spec(self.key(), h@) is Ok && decrypt_spec(self.key(), h@)->Ok_0 == plaintext@,
            r matches Ok(h) ==> h@ != plaintext@ && h@.len() > 0,
            r matches Ok(h) ==> h@.len() == 2 * (encode_utf8(plaintext@).len() + 16),
            r matches Ok(h) ==> forall|i: int| 0 <= i < h@.len() ==> is_lower_hex_char(#[trigger] h@[i]),
    {
        let mut nonces = CounterNonceSequence::new();
        let nonce = nonces.advance();
        let bytes = plaintext.as_bytes();
        let sealed = aes256gcm_seal_separate_tag(self.key_bytes.as_slice(), &nonce, bytes);
        match sealed {
            Err(AeadError::KeyRejected) => Err(EncryptError::EncryptionKey),
            Err(AeadError::Failed) => Err(EncryptError::EncryptionFailed),
            Ok((ct, tag)) => {
                let mut in_out = ct;
                in_out.extend_from_slice(tag.as_slice());
                let ghost sealed_bytes = in_out@;
                proof {
                    assert(sealed_bytes =~= ct@ + tag@);
                }
                let h = hex_encode(in_out.as_slice());
                proof {
                    lemma_hex_encode_lower(sealed_bytes);
                    lemma_hex_roundtrip(sealed_bytes);
                    lemma_utf8_len_at_least_chars(plaintext@);
                    assert(valid_utf8(encode_utf8(plaintext@)));
                }
                Ok(h)
            },
        }
    }

    /// Decrypts lowercase or uppercase hexadecimal text made by `encrypt`.
    pub fn decrypt(&self, hex_ciphertext: &str) -> (r: Result<String, EncryptError>)
        ensures
            string_result(r) == decrypt_spec(self.key(), hex_ciphertext@),
    {
        let in_out = match hex_decode(hex_ciphertext) {
            Ok(b) => b,
            Err(_) => return Err(EncryptError::InvalidHex),
        };
        if in_out.len() < TAG_LEN {
            return Err(EncryptError::CiphertextTooShort);
        }
        let mut nonces = CounterNonceSequence::new();
        let nonce = nonces.advance();
        let plain = match aes256gcm_open_in_place(self.key_bytes.as_slice(), &nonce, in_out.as_slice()) {
            Ok(p) => p,
            Err(AeadError::KeyRejected) => return Err(EncryptError::DecryptionKey),
            Err(AeadError::Failed) => return Err(EncryptError::DecryptionFailed),
        };
        match string_from_utf8(plain) {
            Ok(s) => Ok(s),
            Err(_) => Err(EncryptError::InvalidUtf8),
        }
    }
}

} // verus!
