//! The cryptographic primitives that the library takes from outside. Each
//! function here hands plain values to the outside library and plain
//! values back, and states, without proof, what comes back. Everything
//! else in the library is proved from these statements.

use vstd::prelude::*;

verus! {

/// The error of the outside cryptographic library.
#[verifier::external_type_specification]
#[verifier::external_body]
pub struct ExErrorStack(openssl::error::ErrorStack);

/// The error of the outside base64 decoder.
#[verifier::external_type_specification]
#[verifier::external_body]
pub struct ExDecodeError(base64::DecodeError);

/// The longest input that the outside library takes in one call.
pub const MAX_INPUT: usize = 0x7fff_ffff;

/// The families of asymmetric keys that are told apart.
#[derive(Clone, Copy, Debug, PartialEq, Eq, Structural)]
pub enum KeyFamily {
    Rsa,
    Ec,
    Ed25519,
    X25519,
    Other,
}

/// A private key as the outside library read it.
pub struct ParsedPrivateKey {
    /// The key in PKCS#8.
    pub pkcs8: Vec<u8>,
    /// Its public half in SPKI.
    pub spki: Vec<u8>,
}

/// A public key as the outside library read it.
pub struct ParsedPublicKey {
    /// The key in SPKI.
    pub spki: Vec<u8>,
    pub family: KeyFamily,
    /// The size of the key in bits.
    pub bits: u32,
}

/// A certificate as the outside library read it.
pub struct ParsedCertificate {
    /// The certificate, encoded anew.
    pub der: Vec<u8>,
    /// The encoded name of the holder.
    pub subject: Vec<u8>,
    /// The encoded name of the signer.
    pub issuer: Vec<u8>,
    /// The certified public key in SPKI.
    pub spki: Vec<u8>,
}

/// The PKCS#8 encoding of the private key that a binary encoding holds, if
/// it holds one.
pub uninterp spec fn pkcs8_of(der: Seq<u8>) -> Option<Seq<u8>>;

/// The SPKI encoding of the public half of a private key given in PKCS#8.
pub uninterp spec fn public_half(pkcs8: Seq<u8>) -> Option<Seq<u8>>;

/// Whether the public part that a private key in PKCS#8 carries belongs to
/// its private part. It does in a key that the outside library generated;
/// of a key that was read from elsewhere nothing here says so.
pub uninterp spec fn sound_key(pkcs8: Seq<u8>) -> bool;

/// Whether the outside library finds the elliptic curve private key in a
/// PKCS#8 valid.
pub uninterp spec fn ec_checked(pkcs8: Seq<u8>) -> bool;

/// The SPKI encoding, the family and the size of the public key that a
/// binary encoding holds, if it holds one.
pub uninterp spec fn public_key_of(der: Seq<u8>) -> Option<(Seq<u8>, KeyFamily, u32)>;

/// The encoding, the subject, the issuer and the public key of the
/// certificate that a binary encoding holds, if it holds one.
pub uninterp spec fn certificate_of(der: Seq<u8>) -> Option<(Seq<u8>, Seq<u8>, Seq<u8>, Seq<u8>)>;

/// The encoding, the subject, the issuer and the public key of the
/// certificate that an armoured text holds, if it holds one.
pub uninterp spec fn certificate_of_pem(pem: Seq<u8>) -> Option<
    (Seq<u8>, Seq<u8>, Seq<u8>, Seq<u8>),
>;

/// The SEC1 encoding of an elliptic curve private key given in PKCS#8.
pub uninterp spec fn sec1_of(pkcs8: Seq<u8>) -> Option<Seq<u8>>;

/// The PKCS#1 encoding of an RSA private key given in PKCS#8.
pub uninterp spec fn pkcs1_of(pkcs8: Seq<u8>) -> Option<Seq<u8>>;

/// The SHA-256 digest of some bytes.
pub uninterp spec fn sha256_of(data: Seq<u8>) -> Seq<u8>;

/// What authenticated decryption returns for a key, a nonce, associated
/// data, a ciphertext and a tag: the plaintext, or nothing where the tag
/// does not fit.
pub uninterp spec fn aead_opened(
    key: Seq<u8>,
    nonce: Seq<u8>,
    aad: Seq<u8>,
    text: Seq<u8>,
    tag: Seq<u8>,
) -> Option<Seq<u8>>;

/// What RSA decryption with OAEP padding returns for a private key in
/// PKCS#8 and a ciphertext.
pub uninterp spec fn rsa_opened(pkcs8: Seq<u8>, text: Seq<u8>) -> Option<Seq<u8>>;

/// What RSA decryption with OAEP padding under a label returns for a
/// private key in any encoding that the outside library reads and a
/// ciphertext. Without a label the padding's own empty one is used.
pub uninterp spec fn rsa_label_opened(key: Seq<u8>, label: Option<Seq<u8>>, text: Seq<u8>) -> Option<
    Seq<u8>,
>;

/// The PKCS#1 v1.5 signature of an RSA private key, in any encoding that
/// the outside library reads, over a SHA-256 digest.
pub uninterp spec fn rsa_signature(key: Seq<u8>, digest: Seq<u8>) -> Option<Seq<u8>>;

/// The secret that a private key in PKCS#8 and a peer's public key in SPKI
/// agree on.
pub uninterp spec fn agreed(pkcs8: Seq<u8>, peer_spki: Seq<u8>) -> Option<Seq<u8>>;

/// The standard base64 text of some bytes, with padding.
pub uninterp spec fn base64_of(data: Seq<u8>) -> Seq<u8>;

/// The bytes that a standard base64 text stands for, if it is one.
pub uninterp spec fn base64_decoded(text: Seq<u8>) -> Option<Seq<u8>>;

/// The bytes of an optional slice.
pub open spec fn opt_bytes(b: Option<&[u8]>) -> Option<Seq<u8>> {
    match b {
        Some(s) => Some(s@),
        None => None,
    }
}

/// The characters of the standard base64 alphabet, and the padding sign.
pub open spec fn is_base64_byte(b: u8) -> bool {
    (0x41 <= b <= 0x5a) || (0x61 <= b <= 0x7a) || (0x30 <= b <= 0x39) || b == 0x2b || b == 0x2f
        || b == 0x3d
}

/// Calls `PKey::private_key_from_der` of openssl, which reads a PKCS#8 or
/// a key type specific encoding, and hands back the key as
/// `private_key_to_pkcs8` and `public_key_to_der` write it. Trusted: that
/// the PKCS#8 is a function of the input, named `pkcs8_of`, and that the
/// SPKI is the public half, named `public_half`, of the key in that
/// PKCS#8.
#[verifier::external_body]
pub(crate) fn parse_private_key(der: &[u8]) -> (r: Result<ParsedPrivateKey, openssl::error::ErrorStack>)
    ensures
        match r {
            Ok(k) => pkcs8_of(der@) == Some(k.pkcs8@) && public_half(k.pkcs8@) == Some(k.spki@),
            Err(_) => pkcs8_of(der@) is None,
        },
{
    let key = openssl::pkey::PKey::private_key_from_der(der)?;
    Ok(ParsedPrivateKey { pkcs8: key.private_key_to_pkcs8()?, spki: key.public_key_to_der()? })
}

/// Calls `PKey::public_key_from_der` of openssl, which reads a
/// SubjectPublicKeyInfo, and hands back the key as `public_key_to_der`
/// writes it, its family by `id` and its size by `bits`. Trusted: that the
/// three are a function of the input, named `public_key_of`.
#[verifier::external_body]
pub(crate) fn parse_public_key(der: &[u8]) -> (r: Result<ParsedPublicKey, openssl::error::ErrorStack>)
    ensures
        match r {
            Ok(k) => public_key_of(der@) == Some((k.spki@, k.family, k.bits)),
            Err(_) => public_key_of(der@) is None,
        },
{
    let key = openssl::pkey::PKey::public_key_from_der(der)?;
    let family = match key.id() {
        openssl::pkey::Id::RSA => KeyFamily::Rsa,
        openssl::pkey::Id::EC => KeyFamily::Ec,
        openssl::pkey::Id::ED25519 => KeyFamily::Ed25519,
        openssl::pkey::Id::X25519 => KeyFamily::X25519,
        _ => KeyFamily::Other,
    };
    Ok(ParsedPublicKey { spki: key.public_key_to_der()?, family, bits: key.bits() })
}

/// Calls `X509::from_der` of openssl and hands back the certificate as
/// `to_der` writes it, its `subject_name` and `issuer_name` as `to_der`
/// writes them, and its `public_key` as `public_key_to_der` writes it.
/// Trusted: that the four are a function of the input, named
/// `certificate_of`.
#[verifier::external_body]
pub(crate) fn parse_certificate(der: &[u8]) -> (r: Result<ParsedCertificate, openssl::error::ErrorStack>)
    ensures
        match r {
            Ok(c) => certificate_of(der@) == Some((c.der@, c.subject@, c.issuer@, c.spki@)),
            Err(_) => certificate_of(der@) is None,
        },
{
    let cert = openssl::x509::X509::from_der(der)?;
    Ok(
        ParsedCertificate {
            der: cert.to_der()?,
            subject: cert.subject_name().to_der()?,
            issuer: cert.issuer_name().to_der()?,
            spki: cert.public_key()?.public_key_to_der()?,
        },
    )
}

/// Calls `X509::from_pem` of openssl, which reads an armoured
/// certificate, and hands back what `parse_certificate` hands back of a
/// binary one. Trusted: that the four are a function of the input, named
/// `certificate_of_pem`. The text may not be longer than the outside
/// library takes: it panics on a longer one.
#[verifier::external_body]
pub(crate) fn parse_certificate_pem(pem: &[u8]) -> (r: Result<
    ParsedCertificate,
    openssl::error::ErrorStack,
>)
    requires
        pem@.len() <= MAX_INPUT,
    ensures
        match r {
            Ok(c) => certificate_of_pem(pem@) == Some((c.der@, c.subject@, c.issuer@, c.spki@)),
            Err(_) => certificate_of_pem(pem@) is None,
        },
{
    let cert = openssl::x509::X509::from_pem(pem)?;
    Ok(
        ParsedCertificate {
            der: cert.to_der()?,
            subject: cert.subject_name().to_der()?,
            issuer: cert.issuer_name().to_der()?,
            spki: cert.public_key()?.public_key_to_der()?,
        },
    )
}

/// Calls `EcKeyRef::private_key_to_der` of openssl on the key that
/// `PKey::private_key_from_pkcs8` and `ec_key` read from a PKCS#8.
/// Trusted: that the result is a function of the input, named `sec1_of`.
#[verifier::external_body]
pub(crate) fn to_sec1(pkcs8: &[u8]) -> (r: Result<Vec<u8>, openssl::error::ErrorStack>)
    ensures
        match r {
            Ok(der) => sec1_of(pkcs8@) == Some(der@),
            Err(_) => sec1_of(pkcs8@) is None,
        },
{
    openssl::pkey::PKey::private_key_from_pkcs8(pkcs8)?.ec_key()?.private_key_to_der()
}

/// Calls `RsaRef::private_key_to_der` of openssl on the key that
/// `PKey::private_key_from_pkcs8` and `rsa` read from a PKCS#8. Trusted:
/// that the result is a function of the input, named `pkcs1_of`.
#[verifier::external_body]
pub(crate) fn to_pkcs1(pkcs8: &[u8]) -> (r: Result<Vec<u8>, openssl::error::ErrorStack>)
    ensures
        match r {
            Ok(der) => pkcs1_of(pkcs8@) == Some(der@),
            Err(_) => pkcs1_of(pkcs8@) is None,
        },
{
    openssl::pkey::PKey::private_key_from_pkcs8(pkcs8)?.rsa()?.private_key_to_der()
}

/// Calls `sha256` of openssl. Trusted: that the digest is a function of
/// the input, named `sha256_of`, and has 32 bytes.
#[verifier::external_body]
pub(crate) fn sha256(data: &[u8]) -> (r: Vec<u8>)
    ensures
        r@ == sha256_of(data@),
        r@.len() == 32,
{
    openssl::sha::sha256(data).to_vec()
}

/// Calls `rand_bytes` of openssl for `n` random bytes. Trusted: the number
/// of bytes that come back.
#[verifier::external_body]
pub(crate) fn random_bytes(n: usize) -> (r: Result<Vec<u8>, openssl::error::ErrorStack>)
    requires
        n <= MAX_INPUT,
    ensures
        r is Ok ==> r->Ok_0@.len() == n,
{
    let mut buf = vec![0u8; n];
    openssl::rand::rand_bytes(&mut buf)?;
    Ok(buf)
}

/// Calls `encrypt_aead` of openssl with AES-256-GCM and a tag of 16
/// bytes, and hands back the ciphertext and the tag. Trusted: that
/// decryption with the same key, nonce and associated data gives the
/// plaintext back. No input may be longer than the outside library
/// takes: it panics on a longer one.
#[verifier::external_body]
pub(crate) fn aead_seal(key: &[u8], nonce: &[u8], aad: &[u8], data: &[u8]) -> (r: Result<
    (Vec<u8>, Vec<u8>),
    openssl::error::ErrorStack,
>)
    requires
        key@.len() <= MAX_INPUT,
        nonce@.len() <= MAX_INPUT,
        aad@.len() <= MAX_INPUT,
        data@.len() <= MAX_INPUT,
    ensures
        r is Ok ==> r->Ok_0.1@.len() == 16 && aead_opened(
            key@,
            nonce@,
            aad@,
            r->Ok_0.0@,
            r->Ok_0.1@,
        ) == Some(data@),
{
    let mut tag = vec![0u8; 16];
    let cipher = openssl::symm::Cipher::aes_256_gcm();
    let text = openssl::symm::encrypt_aead(cipher, key, Some(nonce), aad, data, &mut tag)?;
    Ok((text, tag))
}

/// Calls `decrypt_aead` of openssl with AES-256-GCM. Trusted: that the
/// result is a function of the inputs, named `aead_opened`. No input may
/// be longer than the outside library takes.
#[verifier::external_body]
pub(crate) fn aead_open(key: &[u8], nonce: &[u8], aad: &[u8], text: &[u8], tag: &[u8]) -> (r: Result<
    Vec<u8>,
    openssl::error::ErrorStack,
>)
    requires
        key@.len() <= MAX_INPUT,
        nonce@.len() <= MAX_INPUT,
        aad@.len() <= MAX_INPUT,
        text@.len() <= MAX_INPUT,
        tag@.len() <= MAX_INPUT,
    ensures
        match r {
            Ok(data) => aead_opened(key@, nonce@, aad@, text@, tag@) == Some(data@),
            Err(_) => aead_opened(key@, nonce@, aad@, text@, tag@) is None,
        },
{
    let cipher = openssl::symm::Cipher::aes_256_gcm();
    openssl::symm::decrypt_aead(cipher, key, Some(nonce), aad, text, tag)
}

/// Encrypts to an RSA public key given in SPKI, with
/// `Encrypter::encrypt` of openssl and OAEP padding. Trusted: that
/// decryption with a sound private key of which this is the public half
/// gives the plaintext back. Which ciphertext comes out is left open.
#[verifier::external_body]
pub(crate) fn rsa_seal(peer_spki: &[u8], data: &[u8]) -> (r: Result<Vec<u8>, openssl::error::ErrorStack>)
    ensures
        r is Ok ==> forall|pkcs8: Seq<u8>| #[trigger]
            public_half(pkcs8) == Some(peer_spki@) && sound_key(pkcs8) ==> rsa_opened(
                pkcs8,
                r->Ok_0@,
            ) == Some(data@),
{
    let key = openssl::pkey::PKey::public_key_from_der(peer_spki)?;
    let mut enc = openssl::encrypt::Encrypter::new(&key)?;
    enc.set_rsa_padding(openssl::rsa::Padding::PKCS1_OAEP)?;
    let mut out = vec![0u8; enc.encrypt_len(data)?];
    let n = enc.encrypt(data, &mut out)?;
    out.truncate(n);
    Ok(out)
}

/// Decrypts with an RSA private key given in PKCS#8, with
/// `Decrypter::decrypt` of openssl and OAEP padding. Trusted: that the
/// result is a function of the inputs, named `rsa_opened`.
#[verifier::external_body]
pub(crate) fn rsa_open(pkcs8: &[u8], text: &[u8]) -> (r: Result<Vec<u8>, openssl::error::ErrorStack>)
    ensures
        match r {
            Ok(data) => rsa_opened(pkcs8@, text@) == Some(data@),
            Err(_) => rsa_opened(pkcs8@, text@) is None,
        },
{
    let key = openssl::pkey::PKey::private_key_from_pkcs8(pkcs8)?;
    let mut dec = openssl::encrypt::Decrypter::new(&key)?;
    dec.set_rsa_padding(openssl::rsa::Padding::PKCS1_OAEP)?;
    let mut out = vec![0u8; dec.decrypt_len(text)?];
    let n = dec.decrypt(text, &mut out)?;
    out.truncate(n);
    Ok(out)
}

/// Calls `RsaRef::check_key` of openssl on the key that
/// `PKey::private_key_from_pkcs8` and `rsa` read from a PKCS#8; a key
/// that is not read or not checked counts as not correct. Trusted: that
/// a key whose parameters are found correct is sound. Whether a sound key
/// is found correct is left open: the check may rest on chance.
#[verifier::external_body]
pub(crate) fn check_rsa(pkcs8: &[u8]) -> (r: bool)
    ensures
        r ==> sound_key(pkcs8@),
{
    openssl::pkey::PKey::private_key_from_pkcs8(pkcs8).and_then(|k| k.rsa()).and_then(
        |k| k.check_key(),
    ).unwrap_or(false)
}

/// Calls `EcKeyRef::check_key` of openssl on the key that
/// `PKey::private_key_from_pkcs8` and `ec_key` read from a PKCS#8; a key
/// that is not read counts as not valid. Trusted: that the answer is a
/// function of the input, named `ec_checked`, and that a key that is
/// found valid is sound.
#[verifier::external_body]
pub(crate) fn check_ec(pkcs8: &[u8]) -> (r: bool)
    ensures
        r == ec_checked(pkcs8@),
        r ==> sound_key(pkcs8@),
{
    openssl::pkey::PKey::private_key_from_pkcs8(pkcs8).and_then(|k| k.ec_key()).and_then(
        |k| k.check_key(),
    ).is_ok()
}

/// Decrypts with the private key that `PKey::private_key_from_der` reads,
/// with `PkeyCtxRef::decrypt_to_vec` of openssl, OAEP padding and, where
/// one is given, a label. Trusted: that the result is a function of the
/// inputs, named `rsa_label_opened`.
#[verifier::external_body]
pub(crate) fn rsa_open_labelled(key: &[u8], label: Option<&[u8]>, text: &[u8]) -> (r: Result<
    Vec<u8>,
    openssl::error::ErrorStack,
>)
    requires
        label is Some ==> label->0@.len() <= MAX_INPUT,
    ensures
        match r {
            Ok(data) => rsa_label_opened(key@, crate::crypto::opt_bytes(label), text@) == Some(
                data@,
            ),
            Err(_) => rsa_label_opened(key@, crate::crypto::opt_bytes(label), text@) is None,
        },
{
    let key = openssl::pkey::PKey::private_key_from_der(key)?;
    let mut ctx = openssl::pkey_ctx::PkeyCtx::new(&key)?;
    ctx.decrypt_init()?;
    ctx.set_rsa_padding(openssl::rsa::Padding::PKCS1_OAEP)?;
    label.map(|l| ctx.set_rsa_oaep_label(l)).transpose()?;
    let mut out = Vec::new();
    ctx.decrypt_to_vec(text, &mut out)?;
    Ok(out)
}

/// Signs a SHA-256 digest with the private key that
/// `PKey::private_key_from_der` reads, with `PkeyCtxRef::sign_to_vec` of
/// openssl and PKCS#1 v1.5 padding, which only an RSA key takes. Trusted:
/// that the signature is a function of the inputs, named `rsa_signature`.
#[verifier::external_body]
pub(crate) fn rsa_sign(key: &[u8], digest: &[u8]) -> (r: Result<Vec<u8>, openssl::error::ErrorStack>)
    ensures
        match r {
            Ok(signature) => rsa_signature(key@, digest@) == Some(signature@),
            Err(_) => rsa_signature(key@, digest@) is None,
        },
{
    let key = openssl::pkey::PKey::private_key_from_der(key)?;
    let mut ctx = openssl::pkey_ctx::PkeyCtx::new(&key)?;
    ctx.sign_init()?;
    ctx.set_rsa_padding(openssl::rsa::Padding::PKCS1)?;
    ctx.set_signature_md(openssl::md::Md::sha256())?;
    let mut signature = Vec::new();
    ctx.sign_to_vec(digest, &mut signature)?;
    Ok(signature)
}

/// Generates, with `PkeyCtx::keygen` of openssl on a context made from
/// the peer's public key, a fresh key of the kind and parameters of that
/// key, and hands it back as `private_key_to_pkcs8` and
/// `public_key_to_der` write it. Trusted: that the second is the public
/// half of the first, and that a generated key is sound. Which key comes
/// out is left open.
#[verifier::external_body]
pub(crate) fn one_time_key(peer_spki: &[u8]) -> (r: Result<
    ParsedPrivateKey,
    openssl::error::ErrorStack,
>)
    ensures
        r is Ok ==> public_half(r->Ok_0.pkcs8@) == Some(r->Ok_0.spki@) && sound_key(r->Ok_0.pkcs8@),
{
    let peer = openssl::pkey::PKey::public_key_from_der(peer_spki)?;
    let mut ctx = openssl::pkey_ctx::PkeyCtx::new(&peer)?;
    ctx.keygen_init()?;
    let key = ctx.keygen()?;
    Ok(ParsedPrivateKey { pkcs8: key.private_key_to_pkcs8()?, spki: key.public_key_to_der()? })
}

/// Derives, with `Deriver::derive_to_vec` of openssl, the secret shared
/// between a private key given in PKCS#8 and a peer's public key given in
/// SPKI. Trusted: that the secret is a function of the inputs, named
/// `agreed`, and that the two sides of a key agreement between sound
/// keys derive the same secret: the peer's private key with this key's
/// public half, as this key with the peer's public key.
#[verifier::external_body]
pub(crate) fn agree(pkcs8: &[u8], peer_spki: &[u8]) -> (r: Result<Vec<u8>, openssl::error::ErrorStack>)
    ensures
        match r {
            Ok(secret) => agreed(pkcs8@, peer_spki@) == Some(secret@) && forall|other: Seq<u8>|
                #![trigger public_half(other)]
                public_half(other) == Some(peer_spki@) && sound_key(other) && sound_key(pkcs8@)
                    && public_half(pkcs8@) is Some ==> agreed(other, public_half(pkcs8@)->0)
                    == Some(secret@),
            Err(_) => agreed(pkcs8@, peer_spki@) is None,
        },
{
    let key = openssl::pkey::PKey::private_key_from_pkcs8(pkcs8)?;
    let peer = openssl::pkey::PKey::public_key_from_der(peer_spki)?;
    let mut deriver = openssl::derive::Deriver::new(&key)?;
    deriver.set_peer(&peer)?;
    deriver.derive_to_vec()
}

/// Calls `Engine::encode` of base64 on the standard engine. Trusted: that
/// the text is a function of the input, named `base64_of`, is made of the
/// standard alphabet and the padding sign, and decodes to the input.
#[verifier::external_body]
pub(crate) fn base64_encode(data: &[u8]) -> (r: Vec<u8>)
    requires
        data@.len() <= MAX_INPUT,
    ensures
        r@ == base64_of(data@),
        forall|i: int| 0 <= i < r@.len() ==> is_base64_byte(#[trigger] r@[i]),
        base64_decoded(r@) == Some(data@),
{
    base64::Engine::encode(&base64::engine::general_purpose::STANDARD, data).into_bytes()
}

/// Calls `Engine::decode` of base64 on the standard engine. Trusted: that
/// the result is a function of the input, named `base64_decoded`.
#[verifier::external_body]
pub(crate) fn base64_decode(text: &[u8]) -> (r: Result<Vec<u8>, base64::DecodeError>)
    ensures
        match r {
            Ok(data) => base64_decoded(text@) == Some(data@),
            Err(_) => base64_decoded(text@) is None,
        },
{
    base64::Engine::decode(&base64::engine::general_purpose::STANDARD, text)
}

/// Calls `Zeroize::zeroize` of zeroize on a buffer, which overwrites its
/// bytes with zeros and empties it. Trusted: that the buffer is empty
/// afterwards, and that the call does not panic.
#[verifier::external_body]
pub(crate) fn wipe(buffer: &mut Vec<u8>)
    ensures
        final(buffer)@ == Seq::<u8>::empty(),
    opens_invariants none
    no_unwind
{
    zeroize::Zeroize::zeroize(buffer);
}

/// What a PKCS#12 archive holds: the private key in PKCS#8 and the
/// certificates in X.509, as far as they are there.
pub struct Pkcs12Contents {
    pub private_key: Option<Vec<u8>>,
    pub certificate: Option<Vec<u8>>,
    /// The certificates of the signers.
    pub chain: Vec<Vec<u8>>,
}

/// Why a PKCS#12 archive was not opened.
#[derive(Clone, Copy, Debug, PartialEq, Eq, Structural)]
pub enum Pkcs12Failure {
    /// The bytes are no archive.
    Malformed,
    /// The archive does not open under the passphrase.
    Refused,
}

pub struct Pkcs12ContentsView {
    pub private_key: Option<Seq<u8>>,
    pub certificate: Option<Seq<u8>>,
    pub chain: Seq<Seq<u8>>,
}

impl View for Pkcs12Contents {
    type V = Pkcs12ContentsView;

    open spec fn view(&self) -> Pkcs12ContentsView {
        Pkcs12ContentsView {
            private_key: match self.private_key {
                Some(k) => Some(k@),
                None => None,
            },
            certificate: match self.certificate {
                Some(c) => Some(c@),
                None => None,
            },
            chain: self.chain@.map_values(|c: Vec<u8>| c@),
        }
    }
}

/// What opening a PKCS#12 archive under a passphrase gives.
pub uninterp spec fn pkcs12_opened(der: Seq<u8>, passphrase: Seq<char>) -> Result<
    Pkcs12ContentsView,
    Pkcs12Failure,
>;

/// Calls `Pkcs12::from_der` and `Pkcs12Ref::parse2` of openssl, and hands
/// back what the archive holds, re-encoded; a part that does not encode
/// anew makes the archive malformed. Trusted: that the outcome is a
/// function of the archive and the passphrase, named `pkcs12_opened`. The
/// passphrase may hold no NUL character: the outside function panics on
/// one.
#[verifier::external_body]
pub(crate) fn open_pkcs12(der: &[u8], passphrase: &str) -> (r: Result<Pkcs12Contents, Pkcs12Failure>)
    requires
        !passphrase@.contains('\0'),
    ensures
        match r {
            Ok(c) => pkcs12_opened(der@, passphrase@) == Ok::<Pkcs12ContentsView, Pkcs12Failure>(
                c@,
            ),
            Err(e) => pkcs12_opened(der@, passphrase@) == Err::<Pkcs12ContentsView, Pkcs12Failure>(
                e,
            ),
        },
{
    let archive = openssl::pkcs12::Pkcs12::from_der(der).map_err(|_| Pkcs12Failure::Malformed)?;
    let parsed = archive.parse2(passphrase).map_err(|_| Pkcs12Failure::Refused)?;
    let key = parsed.pkey.map(|k| k.private_key_to_pkcs8()).transpose();
    let cert = parsed.cert.map(|c| c.to_der()).transpose();
    let chain: Result<Vec<Vec<u8>>, _> = parsed.ca.into_iter().flatten().map(|c| c.to_der()).collect();
    Ok(
        Pkcs12Contents {
            private_key: key.map_err(|_| Pkcs12Failure::Malformed)?,
            certificate: cert.map_err(|_| Pkcs12Failure::Malformed)?,
            chain: chain.map_err(|_| Pkcs12Failure::Malformed)?,
        },
    )
}

/// The curves on which elliptic curve keys are made, by the size of their
/// keys in bits.
#[derive(Clone, Copy, Debug, PartialEq, Eq, Structural)]
pub enum Curve {
    P192,
    P224,
    P256,
    P384,
    P521,
}

/// Generates an RSA key pair with `Rsa::generate` of openssl, and hands it
/// back as `private_key_to_pkcs8` and `public_key_to_der` write it.
/// Trusted: that the second is the public half of the first, and that a
/// generated key is sound. Which key comes out is left open.
#[verifier::external_body]
pub(crate) fn generate_rsa(bits: u32) -> (r: Result<ParsedPrivateKey, openssl::error::ErrorStack>)
    requires
        bits == 2048 || bits == 3072 || bits == 4096,
    ensures
        r is Ok ==> public_half(r->Ok_0.pkcs8@) == Some(r->Ok_0.spki@) && sound_key(r->Ok_0.pkcs8@),
{
    let key = openssl::pkey::PKey::from_rsa(openssl::rsa::Rsa::generate(bits)?)?;
    Ok(ParsedPrivateKey { pkcs8: key.private_key_to_pkcs8()?, spki: key.public_key_to_der()? })
}

/// Generates an elliptic curve key pair with `EcKey::generate` of openssl
/// on the group that `EcGroup::from_curve_name` gives for the curve, and
/// hands it back as `private_key_to_pkcs8` and `public_key_to_der` write
/// it. Trusted: that the second is the public half of the first, and
/// that a generated key is sound. Which key comes out is left open.
#[verifier::external_body]
pub(crate) fn generate_ec(curve: Curve) -> (r: Result<ParsedPrivateKey, openssl::error::ErrorStack>)
    ensures
        r is Ok ==> public_half(r->Ok_0.pkcs8@) == Some(r->Ok_0.spki@) && sound_key(r->Ok_0.pkcs8@),
{
    let nid = match curve {
        Curve::P192 => openssl::nid::Nid::X9_62_PRIME192V1,
        Curve::P224 => openssl::nid::Nid::SECP224R1,
        Curve::P256 => openssl::nid::Nid::X9_62_PRIME256V1,
        Curve::P384 => openssl::nid::Nid::SECP384R1,
        Curve::P521 => openssl::nid::Nid::SECP521R1,
    };
    let pair = openssl::ec::EcKey::generate(openssl::ec::EcGroup::from_curve_name(nid)?.as_ref())?;
    let key = openssl::pkey::PKey::from_ec_key(pair)?;
    Ok(ParsedPrivateKey { pkcs8: key.private_key_to_pkcs8()?, spki: key.public_key_to_der()? })
}

/// Generates an Ed25519 key pair with `PKey::generate_ed25519` of openssl,
/// and hands it back as `private_key_to_pkcs8` and `public_key_to_der`
/// write it. Trusted: that the second is the public half of the first,
/// and that a generated key is sound. Which key comes out is left open.
#[verifier::external_body]
pub(crate) fn generate_ed25519() -> (r: Result<ParsedPrivateKey, openssl::error::ErrorStack>)
    ensures
        r is Ok ==> public_half(r->Ok_0.pkcs8@) == Some(r->Ok_0.spki@) && sound_key(r->Ok_0.pkcs8@),
{
    let key = openssl::pkey::PKey::generate_ed25519()?;
    Ok(ParsedPrivateKey { pkcs8: key.private_key_to_pkcs8()?, spki: key.public_key_to_der()? })
}

/// Generates an X25519 key pair with `PKey::generate_x25519` of openssl,
/// and hands it back as `private_key_to_pkcs8` and `public_key_to_der`
/// write it. Trusted: that the second is the public half of the first,
/// and that a generated key is sound. Which key comes out is left open.
#[verifier::external_body]
pub(crate) fn generate_x25519() -> (r: Result<ParsedPrivateKey, openssl::error::ErrorStack>)
    ensures
        r is Ok ==> public_half(r->Ok_0.pkcs8@) == Some(r->Ok_0.spki@) && sound_key(r->Ok_0.pkcs8@),
{
    let key = openssl::pkey::PKey::generate_x25519()?;
    Ok(ParsedPrivateKey { pkcs8: key.private_key_to_pkcs8()?, spki: key.public_key_to_der()? })
}

} // verus!
