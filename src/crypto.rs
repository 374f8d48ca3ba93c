//! Keys, signatures, digests and hex texts of the token ledger.
use vstd::prelude::*;
use crate::errors::ATokenError;

verus! {

/// An account is named by a hex text.
pub type Address = String;

/// One hex digit, lower case.
pub open spec fn hex_digit(n: int) -> char {
    if n == 0 {
        '0'
    } else if n == 1 {
        '1'
    } else if n == 2 {
        '2'
    } else if n == 3 {
        '3'
    } else if n == 4 {
        '4'
    } else if n == 5 {
        '5'
    } else if n == 6 {
        '6'
    } else if n == 7 {
        '7'
    } else if n == 8 {
        '8'
    } else if n == 9 {
        '9'
    } else if n == 10 {
        'a'
    } else if n == 11 {
        'b'
    } else if n == 12 {
        'c'
    } else if n == 13 {
        'd'
    } else if n == 14 {
        'e'
    } else {
        'f'
    }
}

/// Two lower-case hex digits per byte, the high half first.
pub open spec fn hex_of(b: Seq<u8>) -> Seq<char>
    decreases b.len(),
{
    if b.len() == 0 {
        Seq::empty()
    } else {
        hex_of(b.drop_last()) + seq![hex_digit(b.last() as int / 16), hex_digit(b.last() as int % 16)]
    }
}

/// The address of a public key: the hex of the first 20 bytes of its SHA-256 digest.
pub open spec fn address_of(public_key: Seq<u8>) -> Seq<char> {
    hex_of(sha256_digest(public_key).subrange(0, 20))
}

/// What `hex::decode` returns for a text; `None` where it refuses the text.
pub uninterp spec fn hex_decoded(s: Seq<char>) -> Option<Seq<u8>>;

/// The SHA-256 digest of a byte string.
pub uninterp spec fn sha256_digest(b: Seq<u8>) -> Seq<u8>;

/// The Ed25519 public key of a 32-byte secret key.
pub uninterp spec fn ed25519_public_key(secret: Seq<u8>) -> Seq<u8>;

/// The Ed25519 signature of a message under a 32-byte secret key.
pub uninterp spec fn ed25519_signature(secret: Seq<u8>, message: Seq<u8>) -> Seq<u8>;

/// Whether 32 bytes are accepted as an Ed25519 public key.
pub uninterp spec fn ed25519_key_valid(public_key: Seq<u8>) -> bool;

/// Whether a 64-byte signature of a message verifies under a valid public key.
pub uninterp spec fn ed25519_verifies(public_key: Seq<u8>, message: Seq<u8>, signature: Seq<u8>) -> bool;

/// The hex text decodes to 32 bytes.
pub open spec fn hex_of_32_bytes(s: Seq<char>) -> bool {
    match hex_decoded(s) {
        Some(b) => b.len() == 32,
        None => false,
    }
}

/// The hex public key is a key and the hex signature of `message` verifies under it.
pub open spec fn signature_checks(public_key_hex: Seq<char>, signature_hex: Seq<char>, message: Seq<u8>) -> bool {
    match (hex_decoded(public_key_hex), hex_decoded(signature_hex)) {
        (Some(pk), Some(sig)) => pk.len() == 32 && sig.len() == 64 && ed25519_key_valid(pk)
            && ed25519_verifies(pk, message, sig),
        _ => false,
    }
}

/// The address of a hex public key, `None` where it is not a key.
pub open spec fn key_address(public_key_hex: Seq<char>) -> Option<Seq<char>> {
    match hex_decoded(public_key_hex) {
        Some(pk) => if pk.len() == 32 && ed25519_key_valid(pk) {
            Some(address_of(pk))
        } else {
            None
        },
        None => None,
    }
}

/// Relies on `std::time::SystemTime::now`: milliseconds since the Unix epoch,
/// zero for a clock set before it; nothing else is known of its value.
#[verifier::external_body]
pub fn now_ms() -> (r: u64) {
    std::time::SystemTime::now().duration_since(std::time::UNIX_EPOCH).unwrap_or_default().as_millis() as u64
}

/// Relies on `hex::encode`: two lower-case digits per byte.
#[verifier::external_body]
pub(crate) fn hex_encode(b: &[u8]) -> (r: String)
    ensures
        r@ == hex_of(b@),
{
    hex::encode(b)
}

/// Relies on `hex::decode`: the bytes of a hex text, `None` where it is not one.
#[verifier::external_body]
pub(crate) fn hex_decode(s: &str) -> (r: Option<Vec<u8>>)
    ensures
        r is Some == hex_decoded(s@) is Some,
        r matches Some(v) ==> Some(v@) == hex_decoded(s@),
{
    hex::decode(s).ok()
}

/// Relies on `sha2::Sha256::digest`: a 32-byte digest.
#[verifier::external_body]
pub(crate) fn sha256(b: &[u8]) -> (r: Vec<u8>)
    ensures
        r@ == sha256_digest(b@),
        r@.len() == 32,
{
    <sha2::Sha256 as sha2::Digest>::digest(b).to_vec()
}

/// Relies on `ed25519_dalek::SigningKey::generate` with the operating
/// system's random source: a fresh 32-byte secret key.
#[verifier::external_body]
fn random_secret() -> (r: Vec<u8>)
    ensures
        r@.len() == 32,
{
    let mut rng = rand_core::OsRng;
    ed25519_dalek::SigningKey::generate(&mut rng).to_bytes().to_vec()
}

/// Relies on `ed25519_dalek::SigningKey::verifying_key`: the 32-byte public key.
#[verifier::external_body]
fn public_key_of(secret: &Vec<u8>) -> (r: Vec<u8>)
    requires
        secret@.len() == 32,
    ensures
        r@ == ed25519_public_key(secret@),
        r@.len() == 32,
{
    let mut arr = [0u8; 32];
    arr.copy_from_slice(secret);
    ed25519_dalek::SigningKey::from_bytes(&arr).verifying_key().to_bytes().to_vec()
}

/// Relies on `ed25519_dalek::SigningKey::sign`: the 64-byte signature.
#[verifier::external_body]
fn sign_bytes(secret: &Vec<u8>, message: &[u8]) -> (r: Vec<u8>)
    requires
        secret@.len() == 32,
    ensures
        r@ == ed25519_signature(secret@, message@),
        r@.len() == 64,
{
    let mut arr = [0u8; 32];
    arr.copy_from_slice(secret);
    <ed25519_dalek::SigningKey as ed25519_dalek::Signer<ed25519_dalek::Signature>>::sign(
        &ed25519_dalek::SigningKey::from_bytes(&arr),
        message,
    ).to_bytes().to_vec()
}

/// Relies on `ed25519_dalek::VerifyingKey::from_bytes`: whether the bytes are a public key.
#[verifier::external_body]
fn key_valid(public_key: &Vec<u8>) -> (r: bool)
    requires
        public_key@.len() == 32,
    ensures
        r == ed25519_key_valid(public_key@),
{
    let mut arr = [0u8; 32];
    arr.copy_from_slice(public_key);
    ed25519_dalek::VerifyingKey::from_bytes(&arr).is_ok()
}

/// Relies on `ed25519_dalek::VerifyingKey::verify`: whether the signature verifies.
#[verifier::external_body]
fn verify_bytes(public_key: &Vec<u8>, message: &[u8], signature: &Vec<u8>) -> (r: bool)
    requires
        public_key@.len() == 32,
        signature@.len() == 64,
        ed25519_key_valid(public_key@),
    ensures
        r == ed25519_verifies(public_key@, message@, signature@),
{
    let mut key = [0u8; 32];
    key.copy_from_slice(public_key);
    let mut sig = [0u8; 64];
    sig.copy_from_slice(signature);
    match ed25519_dalek::VerifyingKey::from_bytes(&key) {
        Ok(k) => <ed25519_dalek::VerifyingKey as ed25519_dalek::Verifier<ed25519_dalek::Signature>>::verify(
            &k,
            message,
            &ed25519_dalek::Signature::from_bytes(&sig),
        ).is_ok(),
        Err(_) => false,
    }
}

/// Hex text of the SHA-256 digest of a byte string.
pub fn sha256_hex(bytes: &[u8]) -> (r: String)
    ensures
        r@ == hex_of(sha256_digest(bytes@)),
{
    let digest = sha256(bytes);
    hex_encode(digest.as_slice())
}

/// The address of a 32-byte public key.
pub fn address_from_public_key(public_key: &Vec<u8>) -> (r: Address)
    ensures
        r@ == address_of(public_key@),
{
    let digest = sha256(public_key.as_slice());
    let mut head: Vec<u8> = Vec::new();
    let mut i: usize = 0;
    while i < 20
        invariant
            i <= 20,
            digest@.len() == 32,
            head@ == digest@.subrange(0, i as int),
        decreases 20 - i,
    {
        head.push(digest[i]);
        assert(head@ =~= digest@.subrange(0, i + 1));
        i = i + 1;
    }
    hex_encode(head.as_slice())
}

/// A signing key.
#[derive(Clone)]
pub struct Wallet {
    secret: Vec<u8>,
}

impl Wallet {
    /// The 32 bytes of the secret key.
    pub closed spec fn secret(&self) -> Seq<u8> {
        self.secret@
    }

    pub closed spec fn wf(&self) -> bool {
        self.secret@.len() == 32
    }

    /// A wallet with a fresh random key.
    pub fn generate() -> (r: Self)
        ensures
            r.wf(),
    {
        Wallet { secret: random_secret() }
    }

    /// The wallet of a secret key given as 64 hex digits.
    pub fn from_private_key_hex(private_key_hex: &str) -> (r: Result<Self, ATokenError>)
        ensures
            r is Ok == hex_of_32_bytes(private_key_hex@),
            r matches Ok(w) ==> w.wf() && Some(w.secret()) == hex_decoded(private_key_hex@),
            r matches Err(e) ==> match hex_decoded(private_key_hex@) {
                None => e is HexDecode,
                Some(b) => e == ATokenError::InvalidPrivateKeyLength(b.len() as usize),
            },
    {
        let bytes = match hex_decode(private_key_hex) {
            Some(b) => b,
            None => {
                return Err(ATokenError::HexDecode(String::from_str("private key")));
            },
        };
        if bytes.len() != 32 {
            return Err(ATokenError::InvalidPrivateKeyLength(bytes.len()));
        }
        Ok(Wallet { secret: bytes })
    }

    pub fn private_key_hex(&self) -> (r: String)
        ensures
            r@ == hex_of(self.secret()),
    {
        hex_encode(self.secret.as_slice())
    }

    pub fn public_key_hex(&self) -> (r: String)
        requires
            self.wf(),
        ensures
            r@ == hex_of(ed25519_public_key(self.secret())),
    {
        let pk = public_key_of(&self.secret);
        hex_encode(pk.as_slice())
    }

    pub fn address(&self) -> (r: Address)
        requires
            self.wf(),
        ensures
            r@ == address_of(ed25519_public_key(self.secret())),
    {
        let pk = public_key_of(&self.secret);
        address_from_public_key(&pk)
    }

    /// Hex text of the signature of a message.
    pub fn sign_hex(&self, message: &[u8]) -> (r: String)
        requires
            self.wf(),
        ensures
            r@ == hex_of(ed25519_signature(self.secret(), message@)),
    {
        let sig = sign_bytes(&self.secret, message);
        hex_encode(sig.as_slice())
    }
}

/// Checks a hex signature of a message under a hex public key.
pub fn verify_signature_hex(public_key_hex: &str, signature_hex: &str, message: &[u8]) -> (r: Result<
    (),
    ATokenError,
>)
    ensures
        r is Ok == signature_checks(public_key_hex@, signature_hex@, message@),
{
    let public_key = match hex_decode(public_key_hex) {
        Some(b) => b,
        None => {
            return Err(ATokenError::HexDecode(String::from_str("public key")));
        },
    };
    if public_key.len() != 32 {
        return Err(ATokenError::InvalidPublicKeyLength(public_key.len()));
    }
    let signature = match hex_decode(signature_hex) {
        Some(b) => b,
        None => {
            return Err(ATokenError::HexDecode(String::from_str("signature")));
        },
    };
    if signature.len() != 64 {
        return Err(ATokenError::InvalidSignatureLength(signature.len()));
    }
    if !key_valid(&public_key) {
        return Err(ATokenError::InvalidPublicKeyLength(public_key.len()));
    }
    if verify_bytes(&public_key, message, &signature) {
        Ok(())
    } else {
        Err(ATokenError::InvalidSignature)
    }
}

/// The address that a hex public key stands for, checking that it is a key.
pub fn address_from_public_key_hex(public_key_hex: &str) -> (r: Result<Address, ATokenError>)
    ensures
        r is Ok == key_address(public_key_hex@) is Some,
        r matches Ok(a) ==> key_address(public_key_hex@) == Some(a@),
{
    let public_key = match hex_decode(public_key_hex) {
        Some(b) => b,
        None => {
            return Err(ATokenError::HexDecode(String::from_str("public key")));
        },
    };
    if public_key.len() != 32 {
        return Err(ATokenError::InvalidPublicKeyLength(public_key.len()));
    }
    if !key_valid(&public_key) {
        return Err(ATokenError::InvalidPublicKeyLength(public_key.len()));
    }
    Ok(address_from_public_key(&public_key))
}

} // verus!
