//! Signing keys: hex text of key bytes, secp256k1 secret-key validity, and
//! a signing key held as its plain secret bytes.

use vstd::prelude::*;
use sessionless::secp256k1::SecretKey;
use sessionless::Sessionless;

verus! {

#[verifier::external_type_specification]
#[verifier::external_body]
pub struct ExSessionless(Sessionless);

/// `c` is a hexadecimal digit (either case).
pub open spec fn is_hex_digit(c: char) -> bool {
    ('0' <= c && c <= '9') || ('a' <= c && c <= 'f') || ('A' <= c && c <= 'F')
}

/// The value 0..=15 of a hexadecimal digit.
pub open spec fn hex_value(c: char) -> int {
    if '0' <= c && c <= '9' {
        c as int - '0' as int
    } else if 'a' <= c && c <= 'f' {
        c as int - 'a' as int + 10
    } else {
        c as int - 'A' as int + 10
    }
}

/// The lower-case hexadecimal digit for 0..=15.
pub open spec fn hex_char(n: int) -> char {
    if n < 10 {
        (n + '0' as int) as char
    } else {
        (n - 10 + 'a' as int) as char
    }
}

/// `s` is an even number of hexadecimal digits.
pub open spec fn hex_decodable(s: Seq<char>) -> bool {
    s.len() % 2 == 0 && forall|i: int| 0 <= i < s.len() ==> is_hex_digit(#[trigger] s[i])
}

/// The bytes that pairs of hexadecimal digits denote, high digit first.
pub open spec fn hex_bytes(s: Seq<char>) -> Seq<u8> {
    Seq::new(s.len() / 2, |i: int| (16 * hex_value(s[2 * i]) + hex_value(s[2 * i + 1])) as u8)
}

/// Lower-case hexadecimal text of bytes, two digits per byte, high digit first.
pub open spec fn hex_text(b: Seq<u8>) -> Seq<char> {
    Seq::new(2 * b.len(), |i: int| if i % 2 == 0 { hex_char((b[i / 2] / 16) as int) } else { hex_char((b[i / 2] % 16) as int) })
}

/// The big-endian value of a byte string.
pub open spec fn be_value(b: Seq<u8>) -> nat
    decreases b.len(),
{
    if b.len() == 0 {
        0
    } else {
        be_value(b.drop_last()) * 256 + b.last() as nat
    }
}

/// The order of the secp256k1 group.
pub open spec fn secp256k1_order() -> nat {
    0xFFFF_FFFF_FFFF_FFFF_FFFF_FFFF_FFFF_FFFE_BAAE_DCE6_AF48_A03B_BFD2_5E8C_D036_4141nat
}

/// 32 bytes naming a scalar in 1..order: a valid secp256k1 secret key.
pub open spec fn is_valid_secret_key(b: Seq<u8>) -> bool {
    b.len() == 32 && 0 < be_value(b) < secp256k1_order()
}

/// The 33-byte compressed public key that belongs to a secp256k1 secret key.
pub uninterp spec fn public_key_of(secret: Seq<u8>) -> Seq<u8>;

/// The 64-byte compact ECDSA signature that a secp256k1 secret key gives for
/// a message (keccak-256 of its UTF-8 bytes, deterministic RFC 6979 nonce).
pub uninterp spec fn signature_of(secret: Seq<u8>, message: Seq<char>) -> Seq<u8>;

/// `hex::decode`: succeeds exactly on an even number of hexadecimal digits
/// (either case) and gives the bytes they denote. The error text is hex's
/// own message and is not described.
#[verifier::external_body]
fn hex_decode(s: &str) -> (r: Result<Vec<u8>, String>)
    ensures
        r is Ok <==> hex_decodable(s@),
        r matches Ok(b) ==> b@ == hex_bytes(s@),
{
    hex::decode(s).map_err(|e| e.to_string())
}

/// `hex::encode`: lower-case hexadecimal text of the bytes.
#[verifier::external_body]
fn hex_encode(b: &[u8]) -> (r: String)
    ensures
        r@ == hex_text(b@),
{
    hex::encode(b)
}

/// `secp256k1::SecretKey::from_slice`, keeping only whether it accepts the
/// bytes: it does exactly on 32 bytes whose big-endian value is neither zero
/// nor at least the group order. The error text is secp256k1's own message
/// and is not described.
#[verifier::external_body]
fn check_secret_key(b: &[u8]) -> (r: Result<(), String>)
    ensures
        r is Ok <==> is_valid_secret_key(b@),
{
    match SecretKey::from_slice(b) {
        Ok(_) => Ok(()),
        Err(e) => Err(e.to_string()),
    }
}

/// `Sessionless::new`, keeping the 32 bytes (`secret_bytes`) of the secret
/// key it draws at random: a valid key. Which key is drawn is chance and is
/// not stated.
#[verifier::external_body]
fn random_secret_key() -> (r: Vec<u8>)
    ensures
        is_valid_secret_key(r@),
{
    Sessionless::new().private_key().secret_bytes().to_vec()
}

/// The secret key, as its 32 bytes, that a Sessionless context signs with.
pub uninterp spec fn session_secret(s: Sessionless) -> Seq<u8>;

/// `Sessionless::from_private_key` for a valid secret key given as bytes:
/// the context keeps that key (`session_secret`); nothing else about the
/// opaque context is stated.
#[verifier::external_body]
fn session_from_secret(secret: &[u8]) -> (r: Sessionless)
    requires
        is_valid_secret_key(secret@),
    ensures
        session_secret(r) == secret@,
{
    Sessionless::from_private_key(SecretKey::from_slice(secret).unwrap())
}

/// `Sessionless::public_key` of the context for a valid secret key, as its
/// 33-byte compressed serialization: `public_key_of` the key.
#[verifier::external_body]
fn public_key_from_secret(secret: &[u8]) -> (r: Vec<u8>)
    requires
        is_valid_secret_key(secret@),
    ensures
        r@ == public_key_of(secret@),
        r@.len() == 33,
{
    let session = Sessionless::from_private_key(SecretKey::from_slice(secret).unwrap());
    session.public_key().serialize().to_vec()
}

/// `Sessionless::sign` of `message` by the context for a valid secret key,
/// as the 64-byte compact serialization of the signature: `signature_of` the
/// key and the message.
#[verifier::external_body]
fn sign_with_secret(secret: &[u8], message: &str) -> (r: Vec<u8>)
    requires
        is_valid_secret_key(secret@),
    ensures
        r@ == signature_of(secret@, message@),
        r@.len() == 64,
{
    let session = Sessionless::from_private_key(SecretKey::from_slice(secret).unwrap());
    session.sign(message).serialize_compact().to_vec()
}

/// A secp256k1 signing key, held as its 32 secret bytes.
pub struct Signer {
    secret: Vec<u8>,
}

impl View for Signer {
    type V = Seq<u8>;

    closed spec fn view(&self) -> Seq<u8> {
        self.secret@
    }
}

impl Signer {
    #[verifier::type_invariant]
    spec fn valid(self) -> bool {
        is_valid_secret_key(self.secret@)
    }

    /// The key stored as hex text: fails unless the text is an even number
    /// of hex digits naming a valid secret key.
    pub fn from_hex(priv_key_hex: &str) -> (r: Result<Signer, String>)
        ensures
            r is Ok <==> (hex_decodable(priv_key_hex@) && is_valid_secret_key(hex_bytes(priv_key_hex@))),
            r matches Ok(s) ==> s@ == hex_bytes(priv_key_hex@),
    {
        let bytes = match hex_decode(priv_key_hex) {
            Ok(b) => b,
            Err(e) => return Err(e),
        };
        match check_secret_key(bytes.as_slice()) {
            Ok(()) => Ok(Signer { secret: bytes }),
            Err(e) => Err(e),
        }
    }

    /// A key drawn at random.
    pub fn generate() -> (r: Signer)
        ensures
            is_valid_secret_key(r@),
    {
        Signer { secret: random_secret_key() }
    }

    /// Hex text of the secret key; it decodes back to the key.
    pub fn private_key_hex(&self) -> (r: String)
        ensures
            r@ == hex_text(self@),
            r@.len() == 64,
            hex_decodable(r@),
            hex_bytes(r@) == self@,
            is_valid_secret_key(self@),
    {
        proof {
            use_type_invariant(self);
            lemma_hex_round_trip(self.secret@);
        }
        hex_encode(self.secret.as_slice())
    }

    /// Hex text of the compressed public key.
    pub fn public_key_hex(&self) -> (r: String)
        ensures
            r@ == hex_text(public_key_of(self@)),
            r@.len() == 66,
            hex_decodable(r@),
    {
        proof {
            use_type_invariant(self);
        }
        let b = public_key_from_secret(self.secret.as_slice());
        proof {
            lemma_hex_round_trip(b@);
        }
        hex_encode(b.as_slice())
    }

    /// Hex text of the signature of `message` by the key.
    pub fn sign_hex(&self, message: &str) -> (r: String)
        ensures
            r@ == hex_text(signature_of(self@, message@)),
            r@.len() == 128,
            hex_decodable(r@),
    {
        proof {
            use_type_invariant(self);
        }
        let b = sign_with_secret(self.secret.as_slice(), message);
        proof {
            lemma_hex_round_trip(b@);
        }
        hex_encode(b.as_slice())
    }

    /// A Sessionless signing context for the key, for the gateway clients.
    pub fn session(&self) -> (r: Sessionless)
        ensures
            session_secret(r) == self@,
    {
        proof {
            use_type_invariant(self);
        }
        session_from_secret(self.secret.as_slice())
    }
}

/// A signing context from a private key stored as hex text: fails unless the
/// text is an even number of hex digits naming a valid secret key; the
/// context holds that key.
pub fn sessionless_from_hex(priv_key_hex: &str) -> (r: Result<Sessionless, String>)
    ensures
        r is Ok <==> (hex_decodable(priv_key_hex@) && is_valid_secret_key(hex_bytes(priv_key_hex@))),
        r matches Ok(s) ==> session_secret(s) == hex_bytes(priv_key_hex@),
{
    match Signer::from_hex(priv_key_hex) {
        Ok(s) => Ok(s.session()),
        Err(e) => Err(e),
    }
}

/// Decoding the hex text of bytes gives the bytes back.
pub proof fn lemma_hex_round_trip(b: Seq<u8>)
    ensures
        hex_text(b).len() == 2 * b.len(),
        hex_decodable(hex_text(b)),
        hex_bytes(hex_text(b)) == b,
{
    let t = hex_text(b);
    assert forall|i: int| 0 <= i < t.len() implies is_hex_digit(#[trigger] t[i]) by {
        let v = if i % 2 == 0 { b[i / 2] / 16 } else { b[i / 2] % 16 };
        assert(0 <= v < 16);
    }
    assert(t.len() % 2 == 0);
    let d = hex_bytes(t);
    assert forall|i: int| 0 <= i < b.len() implies #[trigger] d[i] == b[i] by {
        let hi = b[i] / 16;
        let lo = b[i] % 16;
        assert(t[2 * i] == hex_char(hi as int));
        assert(t[2 * i + 1] == hex_char(lo as int));
        assert(hex_value(hex_char(hi as int)) == hi);
        assert(hex_value(hex_char(lo as int)) == lo);
        assert(16 * hi + lo == b[i]);
    }
    assert(d =~= b);
}

} // verus!
