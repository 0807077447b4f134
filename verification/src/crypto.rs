//! HYDRA-X AND-composition: a message is accepted if and only if it carries
//! a valid ML-DSA-87 (FIPS 204) signature AND a valid SLH-DSA (FIPS 205)
//! signature under the same keypair. There is no other acceptance path.

use pqcrypto_dilithium::dilithium5;
use pqcrypto_sphincsplus::sphincssha2256ssimple;
use pqcrypto_traits::sign::DetachedSignature;
use pqcrypto_traits::sign::PublicKey;
use pqcrypto_traits::sign::SecretKey;
use vstd::prelude::*;
use vstd::string::StringSliceAdditionalSpecFns;

use crate::digest::{blake3_digest, blake3_hash};
use crate::encoding::{
    decimal_ascii, decimal_string, hex_decode, hex_decode_bytes, hex_decode_error_message,
    hex_encode, hex_lower_chars,
};

verus! {

/// Whether ML-DSA-87 (dilithium5) accepts `signature` on `message` under
/// the public key `public_key`.
pub uninterp spec fn ml_dsa_verifies(signature: Seq<u8>, message: Seq<u8>, public_key: Seq<u8>) -> bool;

/// Whether SLH-DSA (SPHINCS+-SHA2-256s-simple) accepts `signature` on
/// `message` under the public key `public_key`.
pub uninterp spec fn slh_dsa_verifies(signature: Seq<u8>, message: Seq<u8>, public_key: Seq<u8>) -> bool;

/// The dilithium5 public key that pairs with the secret key `secret_key`.
pub uninterp spec fn ml_dsa_public_of(secret_key: Seq<u8>) -> Seq<u8>;

/// The SPHINCS+-SHA2-256s-simple public key that pairs with `secret_key`.
pub uninterp spec fn slh_dsa_public_of(secret_key: Seq<u8>) -> Seq<u8>;

/// Whether `secret_key` is a dilithium5 secret key as the scheme's key
/// generation lays it out (its stored public-key digest and vectors belong
/// to one keypair).
pub uninterp spec fn ml_dsa_secret_key_valid(secret_key: Seq<u8>) -> bool;

/// Whether `secret_key` is a SPHINCS+-SHA2-256s-simple secret key as the
/// scheme's key generation lays it out (its stored root belongs to its seeds).
pub uninterp spec fn slh_dsa_secret_key_valid(secret_key: Seq<u8>) -> bool;

/// Fresh dilithium5 keypair from pqcrypto-dilithium's `keypair`, both keys
/// as bytes. The keys are random; the contract claims their fixed lengths,
/// that the secret key is one the key generation made, and that the public
/// key is the one paired with it.
#[verifier::external_body]
fn ml_dsa_keypair() -> (pair: (Vec<u8>, Vec<u8>))
    ensures
        pair.0@.len() == 2592,
        pair.1@.len() == 4896,
        ml_dsa_secret_key_valid(pair.1@),
        pair.0@ == ml_dsa_public_of(pair.1@),
{
    let (pk, sk) = dilithium5::keypair();
    (pk.as_bytes().to_vec(), sk.as_bytes().to_vec())
}

/// Fresh SPHINCS+-SHA2-256s-simple keypair from pqcrypto-sphincsplus's
/// `keypair`, both keys as bytes. Random; the contract claims the fixed
/// lengths, that the secret key is one the key generation made, and that the
/// public key is the one paired with it.
#[verifier::external_body]
fn slh_dsa_keypair() -> (pair: (Vec<u8>, Vec<u8>))
    ensures
        pair.0@.len() == 64,
        pair.1@.len() == 128,
        slh_dsa_secret_key_valid(pair.1@),
        pair.0@ == slh_dsa_public_of(pair.1@),
{
    let (pk, sk) = sphincssha2256ssimple::keypair();
    (pk.as_bytes().to_vec(), sk.as_bytes().to_vec())
}

/// Detached dilithium5 signature from pqcrypto-dilithium's
/// `detached_sign`, after decoding the secret key with `from_bytes` (which
/// accepts exactly the key length). For a secret key that the key
/// generation made, claims that the signature is the scheme's fixed 4627
/// bytes and verifies on the message under the paired public key, as the
/// crate's own keypair/sign/verify round trip shows. Nothing is claimed for
/// other byte strings: their signatures need not verify under any key.
#[verifier::external_body]
fn ml_dsa_sign(message: &[u8], secret_key: &[u8]) -> (sig: Vec<u8>)
    requires
        secret_key@.len() == 4896,
        ml_dsa_secret_key_valid(secret_key@),
    ensures
        sig@.len() == 4627,
        ml_dsa_verifies(sig@, message@, ml_dsa_public_of(secret_key@)),
{
    match dilithium5::SecretKey::from_bytes(secret_key) {
        Ok(sk) => dilithium5::detached_sign(message, &sk).as_bytes().to_vec(),
        Err(_) => Vec::new(),
    }
}

/// Detached SPHINCS+ signature from pqcrypto-sphincsplus's
/// `detached_sign`, after decoding the secret key with `from_bytes`. It
/// draws fresh randomness, so the bytes are not fixed. For a secret key that
/// the key generation made, claims, as for ML-DSA, the fixed length (29792
/// bytes) and that the signature verifies under the paired public key.
#[verifier::external_body]
fn slh_dsa_sign(message: &[u8], secret_key: &[u8]) -> (sig: Vec<u8>)
    requires
        secret_key@.len() == 128,
        slh_dsa_secret_key_valid(secret_key@),
    ensures
        sig@.len() == 29792,
        slh_dsa_verifies(sig@, message@, slh_dsa_public_of(secret_key@)),
{
    match sphincssha2256ssimple::SecretKey::from_bytes(secret_key) {
        Ok(sk) => sphincssha2256ssimple::detached_sign(message, &sk).as_bytes().to_vec(),
        Err(_) => Vec::new(),
    }
}

/// pqcrypto-dilithium's `verify_detached_signature`, after decoding the
/// signature and public key with `from_bytes`; a decoding failure counts as
/// rejection. Claims: the answer is `ml_dsa_verifies` of the three byte
/// strings, and keys of the wrong length (refused by `from_bytes`) and
/// signatures of any length but 4627 (refused by `from_bytes` or by the
/// scheme's length check) are rejected.
#[verifier::external_body]
fn ml_dsa_verify(signature: &[u8], message: &[u8], public_key: &[u8]) -> (ok: bool)
    ensures
        ok == ml_dsa_verifies(signature@, message@, public_key@),
        public_key@.len() != 2592 ==> !ok,
        signature@.len() != 4627 ==> !ok,
{
    let sig = match dilithium5::DetachedSignature::from_bytes(signature) {
        Ok(sig) => sig,
        Err(_) => return false,
    };
    let pk = match dilithium5::PublicKey::from_bytes(public_key) {
        Ok(pk) => pk,
        Err(_) => return false,
    };
    dilithium5::verify_detached_signature(&sig, message, &pk).is_ok()
}

/// pqcrypto-sphincsplus's `verify_detached_signature`, after decoding the
/// signature and public key with `from_bytes`; a decoding failure counts as
/// rejection. Claims as for the ML-DSA check.
#[verifier::external_body]
fn slh_dsa_verify(signature: &[u8], message: &[u8], public_key: &[u8]) -> (ok: bool)
    ensures
        ok == slh_dsa_verifies(signature@, message@, public_key@),
        public_key@.len() != 64 ==> !ok,
        signature@.len() != 29792 ==> !ok,
{
    let sig = match sphincssha2256ssimple::DetachedSignature::from_bytes(signature) {
        Ok(sig) => sig,
        Err(_) => return false,
    };
    let pk = match sphincssha2256ssimple::PublicKey::from_bytes(public_key) {
        Ok(pk) => pk,
        Err(_) => return false,
    };
    sphincssha2256ssimple::verify_detached_signature(&sig, message, &pk).is_ok()
}

// ---------------------------------------------------------------------------
// Errors
// ---------------------------------------------------------------------------

#[derive(Debug)]
pub enum CryptoError {
    MlDsaInvalid,
    SlhDsaInvalid,
    AndCompositionFailed,
    Serialization(String),
    InvalidKeyLength { expected: usize, got: usize },
}

impl CryptoError {
    /// The text that describes the error.
    pub open spec fn message(&self) -> Seq<char> {
        match self {
            CryptoError::MlDsaInvalid => "HYDRA-X: ML-DSA-87 signature verification failed"@,
            CryptoError::SlhDsaInvalid => "HYDRA-X: SLH-DSA signature verification failed"@,
            CryptoError::AndCompositionFailed => "HYDRA-X: AND-composition requires both components to be valid"@,
            CryptoError::Serialization(detail) => "Serialization error: "@ + detail@,
            CryptoError::InvalidKeyLength { expected, got } => "Invalid key length: expected "@
                + decimal_chars(*expected as nat) + ", got "@ + decimal_chars(*got as nat),
        }
    }

    /// The text that describes the error.
    pub fn to_string(&self) -> (text: String)
        ensures
            text@ == self.message(),
    {
        match self {
            CryptoError::MlDsaInvalid => String::from_str(
                "HYDRA-X: ML-DSA-87 signature verification failed",
            ),
            CryptoError::SlhDsaInvalid => String::from_str(
                "HYDRA-X: SLH-DSA signature verification failed",
            ),
            CryptoError::AndCompositionFailed => String::from_str(
                "HYDRA-X: AND-composition requires both components to be valid",
            ),
            CryptoError::Serialization(detail) => String::from_str(
                "Serialization error: ",
            ).concat(detail.as_str()),
            CryptoError::InvalidKeyLength { expected, got } => {
                let e = decimal_string(*expected as u64);
                let g = decimal_string(*got as u64);
                String::from_str("Invalid key length: expected ").concat(e.as_str()).concat(
                    ", got ",
                ).concat(g.as_str())
            },
        }
    }
}

/// The decimal digits of `n` as characters.
pub open spec fn decimal_chars(n: nat) -> Seq<char> {
    decimal_ascii(n).map_values(|b: u8| b as char)
}

// ---------------------------------------------------------------------------
// Address
// ---------------------------------------------------------------------------

/// A Quantar Network address — 32-byte BLAKE3 digest of the concatenated
/// ML-DSA-87 and SLH-DSA public keys.
#[derive(Clone, Copy, Debug, Eq, Hash)]
pub struct Address(pub [u8; 32]);

impl PartialEq for Address {
    fn eq(&self, other: &Self) -> (equal: bool) {
        let mut i: usize = 0;
        while i < 32
            invariant
                i <= 32,
                forall|j: int| 0 <= j < i ==> self.0@[j] == other.0@[j],
            decreases 32 - i,
        {
            if self.0[i] != other.0[i] {
                return false;
            }
            i = i + 1;
        }
        assert(self.0@ =~= other.0@);
        true
    }
}

impl vstd::std_specs::cmp::PartialEqSpecImpl for Address {
    open spec fn obeys_eq_spec() -> bool {
        true
    }

    open spec fn eq_spec(&self, other: &Self) -> bool {
        self.0@ == other.0@
    }
}

/// What `Address::from_hex` returns for the text whose bytes are `text`.
pub open spec fn address_from_hex_result(text: Seq<u8>, res: Result<Address, CryptoError>) -> bool {
    match hex_decode(text) {
        None => res matches Err(CryptoError::Serialization(m)) && m@ == hex_decode_error_message(text),
        Some(bytes) => if bytes.len() != 32 {
            res == Err::<Address, CryptoError>(
                CryptoError::InvalidKeyLength { expected: 32, got: bytes.len() as usize },
            )
        } else {
            res matches Ok(a) && a.0@ == bytes
        },
    }
}

impl Address {
    /// The address that a verifying key is known by.
    pub open spec fn of_key(vk: HydraXVerifyingKey) -> Seq<u8> {
        blake3_hash(vk.ml_dsa_pk@ + vk.slh_dsa_pk@)
    }

    pub fn from_verifying_key(vk: &HydraXVerifyingKey) -> (addr: Address)
        ensures
            addr.0@ == Address::of_key(*vk),
    {
        let mut buf: Vec<u8> = Vec::new();
        crate::encoding::push_all(&mut buf, vk.ml_dsa_pk.as_slice());
        crate::encoding::push_all(&mut buf, vk.slh_dsa_pk.as_slice());
        Address(blake3_digest(buf.as_slice()))
    }

    /// Lowercase hex of the 32 bytes.
    pub fn as_hex(&self) -> (text: String)
        ensures
            text@ == hex_lower_chars(self.0@),
    {
        hex_encode(&self.0)
    }

    pub fn from_hex(s: &str) -> (res: Result<Self, CryptoError>)
        ensures
            address_from_hex_result(s.spec_bytes(), res),
    {
        let bytes = match hex_decode_bytes(s.as_bytes()) {
            Ok(bytes) => bytes,
            Err(message) => return Err(CryptoError::Serialization(message)),
        };
        if bytes.len() != 32 {
            return Err(CryptoError::InvalidKeyLength { expected: 32, got: bytes.len() });
        }
        let mut arr = [0u8; 32];
        let mut i: usize = 0;
        while i < 32
            invariant
                bytes@.len() == 32,
                i <= 32,
                forall|j: int| 0 <= j < i ==> arr@[j] == bytes@[j],
            decreases 32 - i,
        {
            arr[i] = bytes[i];
            i = i + 1;
        }
        assert(arr@ =~= bytes@);
        Ok(Address(arr))
    }

    /// The display form: `qtr1` followed by the hex of the first 16 bytes.
    pub fn to_string(&self) -> (text: String)
        ensures
            text@ == "qtr1"@ + hex_lower_chars(self.0@.subrange(0, 16)),
    {
        let head = hex_encode(&self.0[0..16]);
        String::from_str("qtr1").concat(head.as_str())
    }
}

// ---------------------------------------------------------------------------
// Keys
// ---------------------------------------------------------------------------

/// HYDRA-X verifying (public) key: ML-DSA-87 pk || SLH-DSA pk, as bytes.
#[derive(Debug)]
pub struct HydraXVerifyingKey {
    pub ml_dsa_pk: Vec<u8>,
    pub slh_dsa_pk: Vec<u8>,
}

impl View for HydraXVerifyingKey {
    type V = (Seq<u8>, Seq<u8>);

    open spec fn view(&self) -> (Seq<u8>, Seq<u8>) {
        (self.ml_dsa_pk@, self.slh_dsa_pk@)
    }
}

impl Clone for HydraXVerifyingKey {
    fn clone(&self) -> (copy: Self)
        ensures
            copy@ == self@,
    {
        let ml_dsa_pk = self.ml_dsa_pk.clone();
        let slh_dsa_pk = self.slh_dsa_pk.clone();
        assert(ml_dsa_pk@ =~= self.ml_dsa_pk@);
        assert(slh_dsa_pk@ =~= self.slh_dsa_pk@);
        HydraXVerifyingKey { ml_dsa_pk, slh_dsa_pk }
    }
}

impl HydraXVerifyingKey {
    pub fn address(&self) -> (addr: Address)
        ensures
            addr.0@ == Address::of_key(*self),
    {
        Address::from_verifying_key(self)
    }

    /// The debugging form: `HydraXVerifyingKey(` and the key's address in
    /// its display form, then `)`.
    pub fn debug_text(&self) -> (text: String)
        ensures
            text@ == "HydraXVerifyingKey("@ + ("qtr1"@ + hex_lower_chars(
                Address::of_key(*self).subrange(0, 16),
            )) + ")"@,
    {
        let addr = self.address();
        let shown = addr.to_string();
        let text = String::from_str("HydraXVerifyingKey(").concat(shown.as_str()).concat(")");
        assert(text@ =~= "HydraXVerifyingKey("@ + shown@ + ")"@);
        text
    }

    /// Raw bytes of the ML-DSA-87 public key (2592 bytes).
    pub fn ml_dsa_pk_bytes(&self) -> (bytes: &[u8])
        ensures
            bytes@ == self.ml_dsa_pk@,
    {
        self.ml_dsa_pk.as_slice()
    }

    /// Raw bytes of the SLH-DSA-256s public key (64 bytes).
    pub fn slh_dsa_pk_bytes(&self) -> (bytes: &[u8])
        ensures
            bytes@ == self.slh_dsa_pk@,
    {
        self.slh_dsa_pk.as_slice()
    }
}

/// HYDRA-X signing (secret) key: the two secret keys as bytes.
pub struct HydraXSigningKey {
    ml_dsa_sk: Vec<u8>,
    slh_dsa_sk: Vec<u8>,
}

impl HydraXSigningKey {
    #[verifier::type_invariant]
    closed spec fn well_formed(self) -> bool {
        &&& self.ml_dsa_sk@.len() == 4896
        &&& self.slh_dsa_sk@.len() == 128
        &&& ml_dsa_secret_key_valid(self.ml_dsa_sk@)
        &&& slh_dsa_secret_key_valid(self.slh_dsa_sk@)
    }

    /// The public keys paired with the two secret keys.
    pub closed spec fn public_keys(&self) -> (Seq<u8>, Seq<u8>) {
        (ml_dsa_public_of(self.ml_dsa_sk@), slh_dsa_public_of(self.slh_dsa_sk@))
    }
}

/// A complete HYDRA-X keypair (signing + verifying).
pub struct HydraXKeypair {
    pub signing_key: HydraXSigningKey,
    pub verifying_key: HydraXVerifyingKey,
}

impl HydraXKeypair {
    /// Whether the verifying key is the one paired with the signing key.
    pub open spec fn keys_match(&self) -> bool {
        self.verifying_key@ == self.signing_key.public_keys()
    }

    /// Generate a fresh HYDRA-X keypair using OS randomness.
    pub fn generate() -> (keypair: Self)
        ensures
            keypair.keys_match(),
            keypair.verifying_key.ml_dsa_pk@.len() == 2592,
            keypair.verifying_key.slh_dsa_pk@.len() == 64,
    {
        let (ml_pk, ml_sk) = ml_dsa_keypair();
        let (sl_pk, sl_sk) = slh_dsa_keypair();
        HydraXKeypair {
            signing_key: HydraXSigningKey { ml_dsa_sk: ml_sk, slh_dsa_sk: sl_sk },
            verifying_key: HydraXVerifyingKey { ml_dsa_pk: ml_pk, slh_dsa_pk: sl_pk },
        }
    }

    /// Derive the address of this keypair.
    pub fn address(&self) -> (addr: Address)
        ensures
            addr.0@ == Address::of_key(self.verifying_key),
    {
        self.verifying_key.address()
    }

    /// Sign a message with the AND-composition of ML-DSA-87 and SLH-DSA.
    /// Both components verify under the keys the signing key pairs with;
    /// for a keypair whose keys match, the signature verifies.
    pub fn sign(&self, message: &[u8]) -> (sig: HydraXSignature)
        ensures
            sig.verifying_key@ == self.verifying_key@,
            sig.ml_dsa_sig@.len() == 4627,
            sig.slh_dsa_sig@.len() == 29792,
            ml_dsa_verifies(sig.ml_dsa_sig@, message@, self.signing_key.public_keys().0),
            slh_dsa_verifies(sig.slh_dsa_sig@, message@, self.signing_key.public_keys().1),
            self.keys_match() ==> sig.verdict(message@) is Ok,
    {
        proof {
            use_type_invariant(&self.signing_key);
        }
        let ml_dsa_sig = ml_dsa_sign(message, self.signing_key.ml_dsa_sk.as_slice());
        let slh_dsa_sig = slh_dsa_sign(message, self.signing_key.slh_dsa_sk.as_slice());
        HydraXSignature { ml_dsa_sig, slh_dsa_sig, verifying_key: self.verifying_key.clone() }
    }
}

// ---------------------------------------------------------------------------
// Signature
// ---------------------------------------------------------------------------

/// The HYDRA-X verdict on the two component checks: the ML-DSA-87 component
/// is judged first, and the signature is accepted only when both hold.
pub open spec fn hydra_x_verdict(ml_dsa_valid: bool, slh_dsa_valid: bool) -> Result<(), CryptoError> {
    if !ml_dsa_valid {
        Err(CryptoError::MlDsaInvalid)
    } else if !slh_dsa_valid {
        Err(CryptoError::SlhDsaInvalid)
    } else {
        Ok(())
    }
}

/// The AND-composition rule applied to the outcomes of the two component
/// checks.
pub fn and_composition(ml_dsa_valid: bool, slh_dsa_valid: bool) -> (res: Result<(), CryptoError>)
    ensures
        res == hydra_x_verdict(ml_dsa_valid, slh_dsa_valid),
{
    if !ml_dsa_valid {
        Err(CryptoError::MlDsaInvalid)
    } else if !slh_dsa_valid {
        Err(CryptoError::SlhDsaInvalid)
    } else {
        Ok(())
    }
}

/// HYDRA-X AND-composed signature.
#[derive(Debug)]
pub struct HydraXSignature {
    pub ml_dsa_sig: Vec<u8>,
    pub slh_dsa_sig: Vec<u8>,
    pub verifying_key: HydraXVerifyingKey,
}

impl View for HydraXSignature {
    type V = (Seq<u8>, Seq<u8>, (Seq<u8>, Seq<u8>));

    open spec fn view(&self) -> (Seq<u8>, Seq<u8>, (Seq<u8>, Seq<u8>)) {
        (self.ml_dsa_sig@, self.slh_dsa_sig@, self.verifying_key@)
    }
}

impl Clone for HydraXSignature {
    fn clone(&self) -> (copy: Self)
        ensures
            copy@ == self@,
    {
        let ml_dsa_sig = self.ml_dsa_sig.clone();
        let slh_dsa_sig = self.slh_dsa_sig.clone();
        assert(ml_dsa_sig@ =~= self.ml_dsa_sig@);
        assert(slh_dsa_sig@ =~= self.slh_dsa_sig@);
        HydraXSignature { ml_dsa_sig, slh_dsa_sig, verifying_key: self.verifying_key.clone() }
    }
}

impl HydraXSignature {
    /// Whether the ML-DSA-87 component is valid on `message`.
    pub open spec fn ml_dsa_valid(&self, message: Seq<u8>) -> bool {
        ml_dsa_verifies(self.ml_dsa_sig@, message, self.verifying_key.ml_dsa_pk@)
    }

    /// Whether the SLH-DSA component is valid on `message`.
    pub open spec fn slh_dsa_valid(&self, message: Seq<u8>) -> bool {
        slh_dsa_verifies(self.slh_dsa_sig@, message, self.verifying_key.slh_dsa_pk@)
    }

    /// The outcome of verifying this signature on `message`.
    pub open spec fn verdict(&self, message: Seq<u8>) -> Result<(), CryptoError> {
        hydra_x_verdict(self.ml_dsa_valid(message), self.slh_dsa_valid(message))
    }

    /// Verify the AND-composition: BOTH components must be valid.
    pub fn verify(&self, message: &[u8]) -> (res: Result<(), CryptoError>)
        ensures
            res == self.verdict(message@),
    {
        let ml_ok = ml_dsa_verify(
            self.ml_dsa_sig.as_slice(),
            message,
            self.verifying_key.ml_dsa_pk.as_slice(),
        );
        if !ml_ok {
            return and_composition(false, false);
        }
        let slh_ok = slh_dsa_verify(
            self.slh_dsa_sig.as_slice(),
            message,
            self.verifying_key.slh_dsa_pk.as_slice(),
        );
        and_composition(true, slh_ok)
    }

    /// The address that produced this signature.
    pub fn signer_address(&self) -> (addr: Address)
        ensures
            addr.0@ == Address::of_key(self.verifying_key),
    {
        self.verifying_key.address()
    }
}

// ---------------------------------------------------------------------------
// Laws
// ---------------------------------------------------------------------------

/// AND-composition: a HYDRA-X signature is accepted on a message exactly
/// when its ML-DSA-87 component AND its SLH-DSA component are both valid
/// on that message; a failure names the first component that failed.
pub proof fn lemma_and_composition(sig: HydraXSignature, message: Seq<u8>)
    ensures
        sig.verdict(message) is Ok <==> (sig.ml_dsa_valid(message) && sig.slh_dsa_valid(message)),
        !sig.ml_dsa_valid(message) ==> sig.verdict(message) == Err::<(), CryptoError>(
            CryptoError::MlDsaInvalid,
        ),
        sig.ml_dsa_valid(message) && !sig.slh_dsa_valid(message) ==> sig.verdict(message) == Err::<
            (),
            CryptoError,
        >(CryptoError::SlhDsaInvalid),
{
}

/// An address is a function of the verifying key alone: a signature that
/// carries a keypair's verifying key names that keypair's address as its
/// signer.
pub proof fn lemma_signer_address_is_key_address(key: HydraXVerifyingKey, sig: HydraXSignature)
    requires
        sig.verifying_key@ == key@,
    ensures
        Address::of_key(sig.verifying_key) == Address::of_key(key),
{
}

/// Reading back an address's hex form gives the same address.
pub proof fn lemma_address_hex_roundtrip(addr: Address, res: Result<Address, CryptoError>)
    requires
        address_from_hex_result(vstd::utf8::encode_utf8(hex_lower_chars(addr.0@)), res),
    ensures
        res matches Ok(back) && back.0@ == addr.0@,
{
    crate::encoding::lemma_hex_chars_utf8(addr.0@);
    crate::encoding::lemma_hex_roundtrip(addr.0@);
}

} // verus!
