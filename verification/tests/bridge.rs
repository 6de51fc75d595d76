use base64::engine::general_purpose::STANDARD;
use base64::Engine as _;
use kms_core::access::{Identity, IdentityPolicy, Right};
use kms_core::cipher::Ciphertext;
use kms_core::engine::Engine;
use kms_core::error::KmsError;
use kms_core::import::ImportRequest;
use kms_core::memory_store::MemoryStore;
use kms_core::object::{CryptographicAlgorithm, KeyFormatType, Links, WrappingAlgorithm};
use kms_core::server::google_cse::{
    base64_text, cut_blob, lay_out, private_key_decrypt, private_key_sign, unwrap_key, unwrap_key_text,
    wrap_key,
};
use openssl::hash::MessageDigest;
use openssl::pkey::PKey;
use openssl::rsa::{Padding, Rsa};
use openssl::sign::Verifier;

fn identity(name: &str) -> Identity {
    let policy = IdentityPolicy { default_username: "admin".to_string(), force_default_username: false };
    policy.resolve(Some(name))
}

fn bridge() -> Engine<MemoryStore> {
    let mut engine = Engine::new(MemoryStore::new());
    let key = kms_core::object::Object::SymmetricKey {
        key_block: kms_core::object::KeyBlock {
            key_format_type: KeyFormatType::Raw,
            key_material: vec![7u8; 32],
            cryptographic_algorithm: Some(CryptographicAlgorithm::AES),
            cryptographic_length: Some(256),
            key_wrapping_data: None,
        },
    };
    let request = ImportRequest {
        id: Some("google_cse".to_string()),
        object: key,
        unwrap: false,
        replace_existing: false,
        tags: vec![],
        links: Links { private_key_id: None, public_key_id: None, certificate_id: None, issuer_certificate_id: None },
    };
    engine.import(request, &identity("owner"), 1).unwrap();
    engine
}

#[test]
fn the_bridge_lays_sealed_data_out_and_cuts_it_again() {
    let sealed = Ciphertext {
        algorithm: WrappingAlgorithm::Aes256Gcm,
        encapsulation: vec![],
        nonce: (0u8..12).collect(),
        tag: (100u8..116).collect(),
        data: vec![1, 2, 3],
    };
    let blob = lay_out(&sealed);
    assert_eq!(blob.len(), 31);
    assert_eq!(&blob[..12], sealed.nonce.as_slice());
    assert_eq!(&blob[12..28], sealed.tag.as_slice());
    assert_eq!(&blob[28..], &[1, 2, 3]);
    let back = cut_blob(&blob).unwrap();
    assert_eq!(back.nonce, sealed.nonce);
    assert_eq!(back.tag, sealed.tag);
    assert_eq!(back.data, sealed.data);
    assert_eq!(back.algorithm, WrappingAlgorithm::Aes256Gcm);
    assert!(back.encapsulation.is_empty());
    assert!(cut_blob(&blob[..27]).is_none());
    assert_eq!(cut_blob(&blob[..28]).unwrap().data, Vec::<u8>::new());
    assert_eq!(base64_text(b"hello"), "aGVsbG8=");
}

#[test]
fn what_the_bridge_wraps_it_unwraps() {
    let engine = bridge();
    let owner = identity("owner");
    let key = STANDARD.encode([9u8; 32]);
    let wrapped = wrap_key(&engine, &key, "a reason", &owner).unwrap();
    assert_eq!(unwrap_key(&engine, &wrapped, "a reason", &owner), Ok(vec![9u8; 32]));
    assert_eq!(unwrap_key(&engine, &wrapped, "another reason", &owner), Err(KmsError::WrongKey));
    assert_eq!(unwrap_key(&engine, "not base64!", "a reason", &owner), Err(KmsError::MalformedInput));
    assert_eq!(unwrap_key(&engine, &STANDARD.encode([1u8; 27]), "a reason", &owner), Err(KmsError::MalformedInput));
    assert_eq!(wrap_key(&engine, "not base64!", "a reason", &owner), Err(KmsError::MalformedInput));
    assert_eq!(wrap_key(&engine, &key, "a reason", &identity("stranger")), Err(KmsError::NotFound));
    assert_eq!(unwrap_key(&engine, &wrapped, "a reason", &identity("stranger")), Err(KmsError::NotFound));
    assert_eq!(unwrap_key(&engine, "not base64!", "a reason", &identity("stranger")), Err(KmsError::NotFound));
    assert_eq!(wrap_key(&engine, "not base64!", "a reason", &identity("stranger")), Err(KmsError::NotFound));
    assert_eq!(unwrap_key_text(&engine, &wrapped, "a reason", &owner), Ok(key.clone()));
}

#[test]
fn a_wrapped_private_key_signs_and_decrypts_for_the_bridge() {
    let engine = bridge();
    let owner = identity("owner");
    let key = PKey::from_rsa(Rsa::generate(2048).unwrap()).unwrap();
    let wrapped = wrap_key(&engine, &STANDARD.encode(key.private_key_to_pkcs8().unwrap()), "r", &owner).unwrap();

    let digest = openssl::sha::sha256(b"a message");
    let signature = private_key_sign(&engine, &wrapped, &STANDARD.encode(digest), "r", &owner).unwrap();
    let mut verifier = Verifier::new(MessageDigest::sha256(), &key).unwrap();
    verifier.update(b"a message").unwrap();
    assert!(verifier.verify(&STANDARD.decode(&signature).unwrap()).unwrap());
    assert_eq!(
        private_key_sign(&engine, &wrapped, &STANDARD.encode(digest), "r", &owner),
        Ok(signature)
    );
    assert_eq!(private_key_sign(&engine, &wrapped, "not base64!", "r", &owner), Err(KmsError::MalformedInput));
    assert_eq!(
        private_key_sign(&engine, &wrapped, &STANDARD.encode([1u8; 5]), "r", &owner),
        Err(KmsError::UnsupportedAlgorithm)
    );

    let rsa = key.rsa().unwrap();
    let mut sealed = vec![0u8; rsa.size() as usize];
    let n = rsa.public_encrypt(&[5u8; 32], &mut sealed, Padding::PKCS1_OAEP).unwrap();
    sealed.truncate(n);
    assert_eq!(
        private_key_decrypt(&engine, &wrapped, &STANDARD.encode(&sealed), None, "r", &owner),
        Ok(STANDARD.encode([5u8; 32]))
    );
    assert_eq!(
        private_key_decrypt(&engine, &wrapped, &STANDARD.encode(&sealed), Some(&STANDARD.encode(b"label")), "r", &owner),
        Err(KmsError::WrongKey)
    );
    assert_eq!(
        private_key_decrypt(&engine, &wrapped, "not base64!", None, "r", &owner),
        Err(KmsError::MalformedInput)
    );
}

#[test]
fn a_wrapped_private_key_is_unwrapped_for_decryption() {
    let mut engine = bridge();
    let owner = identity("owner");
    let pair = engine.create_key_pair(CryptographicAlgorithm::RSA, 2048, &vec![], &owner, 1).unwrap();
    let sealed = engine.encrypt(&pair.public_key_id, b"content", b"aad", &owner).unwrap();
    let kek = engine.create(CryptographicAlgorithm::AES, 256, None, vec![], &owner, 2).unwrap();
    engine.rewrap(&pair.private_key_id, &kek, &owner).unwrap();
    let (stored, _) = engine.get(&pair.private_key_id, &owner).unwrap();
    assert!(stored.is_wrapped());
    assert_eq!(engine.decrypt(&pair.private_key_id, &sealed, b"aad", &owner), Ok(b"content".to_vec()));
    engine.grant_access(&pair.private_key_id, &owner, &"user".to_string(), Right::Decrypt).unwrap();
    assert_eq!(
        engine.decrypt(&pair.private_key_id, &sealed, b"aad", &identity("user")),
        Err(KmsError::NotFound)
    );
}

#[test]
fn a_caller_with_the_get_right_alone_is_refused_before_the_request_is_read() {
    let mut engine = bridge();
    let owner = identity("owner");
    engine.grant_access(&"google_cse".to_string(), &owner, &"reader".to_string(), Right::Get).unwrap();
    let reader = identity("reader");
    let wrapped = wrap_key(&engine, &STANDARD.encode([9u8; 32]), "r", &owner).unwrap();
    assert_eq!(unwrap_key(&engine, &wrapped, "r", &reader), Err(KmsError::Unauthorized));
    assert_eq!(unwrap_key(&engine, "not base64!", "r", &reader), Err(KmsError::Unauthorized));
    assert_eq!(private_key_sign(&engine, "not base64!", "x", "r", &reader), Err(KmsError::Unauthorized));
    assert_eq!(private_key_decrypt(&engine, "not base64!", "x", None, "r", &reader), Err(KmsError::Unauthorized));
    assert_eq!(wrap_key(&engine, "not base64!", "r", &reader), Err(KmsError::Unauthorized));
    engine.destroy(&"google_cse".to_string(), &owner).unwrap();
    assert_eq!(unwrap_key(&engine, &wrapped, "r", &owner), Err(KmsError::NotFound));
}

#[test]
fn the_bridge_wraps_under_a_symmetric_key_only() {
    let mut engine = Engine::new(MemoryStore::new());
    let owner = identity("owner");
    let pair = engine.create_key_pair(CryptographicAlgorithm::RSA, 2048, &vec![], &owner, 1).unwrap();
    let (public, _) = engine.get(&pair.public_key_id, &owner).unwrap();
    let request = ImportRequest {
        id: Some("google_cse".to_string()),
        object: public,
        unwrap: false,
        replace_existing: false,
        tags: vec![],
        links: Links { private_key_id: None, public_key_id: None, certificate_id: None, issuer_certificate_id: None },
    };
    engine.import(request, &owner, 2).unwrap();
    assert_eq!(
        wrap_key(&engine, &STANDARD.encode([9u8; 32]), "r", &owner),
        Err(KmsError::UnsupportedAlgorithm)
    );
}
