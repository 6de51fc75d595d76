use kms_core::error::WrapError;
use kms_core::object::{KeyFormatType, ObjectKind, WrappingAlgorithm};
use kms_core::wrapping::{sealed_from, unwrap, wrap, WrappingKey};
use openssl::ec::{EcGroup, EcKey};
use openssl::nid::Nid;
use openssl::pkey::PKey;
use openssl::rsa::Rsa;

fn key(id: &str, kind: ObjectKind, material: Vec<u8>) -> WrappingKey {
    WrappingKey { id: id.to_string(), kind, material }
}

#[test]
fn symmetric_wrapping_round_trips() {
    let k = key("kek", ObjectKind::SymmetricKey, vec![7u8; 32]);
    let blob = wrap(b"secret material", KeyFormatType::Raw, &k, None).unwrap();
    assert_eq!(blob.wrapping.algorithm, WrappingAlgorithm::Aes256Gcm);
    assert_eq!(blob.wrapping.wrapping_key_id, "kek");
    assert_eq!(blob.wrapping.original_format, KeyFormatType::Raw);
    assert_eq!(blob.wrapping.nonce.len(), 12);
    assert_eq!(blob.wrapping.tag.len(), 16);
    assert_ne!(blob.ciphertext, b"secret material".to_vec());
    assert_eq!(unwrap(&blob, &k), Ok(b"secret material".to_vec()));
}

#[test]
fn another_key_is_the_wrong_key() {
    let k = key("kek", ObjectKind::SymmetricKey, vec![7u8; 32]);
    let blob = wrap(b"secret material", KeyFormatType::Raw, &k, None).unwrap();
    let other_id = key("other", ObjectKind::SymmetricKey, vec![7u8; 32]);
    assert_eq!(unwrap(&blob, &other_id), Err(WrapError::WrongKey));
    let other_bytes = key("kek", ObjectKind::SymmetricKey, vec![8u8; 32]);
    assert_eq!(unwrap(&blob, &other_bytes), Err(WrapError::WrongKey));
    let other_kind = key("kek", ObjectKind::PublicKey, vec![7u8; 32]);
    assert_eq!(unwrap(&blob, &other_kind), Err(WrapError::WrongKey));
}

#[test]
fn tampering_is_detected() {
    let k = key("kek", ObjectKind::SymmetricKey, vec![7u8; 32]);
    let blob = wrap(b"secret material", KeyFormatType::Raw, &k, None).unwrap();
    let mut changed = wrap(b"secret material", KeyFormatType::Raw, &k, None).unwrap();
    changed.ciphertext[0] ^= 1;
    assert_eq!(unwrap(&changed, &k), Err(WrapError::WrongKey));
    let mut other_format = wrap(b"secret material", KeyFormatType::Raw, &k, None).unwrap();
    other_format.wrapping.original_format = KeyFormatType::PKCS8;
    assert_eq!(unwrap(&other_format, &k), Err(WrapError::WrongKey));
    let mut short_nonce = wrap(b"secret material", KeyFormatType::Raw, &k, None).unwrap();
    short_nonce.wrapping.nonce.pop();
    assert_eq!(unwrap(&short_nonce, &k), Err(WrapError::UnsupportedAlgorithm));
    assert_eq!(unwrap(&blob, &k), Ok(b"secret material".to_vec()));
}

#[test]
fn keys_that_do_not_wrap_are_unsupported() {
    let short = key("kek", ObjectKind::SymmetricKey, vec![7u8; 16]);
    assert_eq!(wrap(b"m", KeyFormatType::Raw, &short, None).err(), Some(WrapError::UnsupportedAlgorithm));
    let garbage = key("pk", ObjectKind::PublicKey, vec![1, 2, 3]);
    assert_eq!(wrap(b"m", KeyFormatType::Raw, &garbage, None).err(), Some(WrapError::UnsupportedAlgorithm));
    let k = key("kek", ObjectKind::SymmetricKey, vec![7u8; 32]);
    assert_eq!(
        wrap(b"m", KeyFormatType::Raw, &k, Some(WrappingAlgorithm::RsaOaep)).err(),
        Some(WrapError::UnsupportedAlgorithm)
    );
    assert!(wrap(b"m", KeyFormatType::Raw, &k, Some(WrappingAlgorithm::Aes256Gcm)).is_ok());
    let signing = PKey::generate_ed25519().unwrap();
    let ed = key("ed", ObjectKind::PublicKey, signing.public_key_to_der().unwrap());
    assert_eq!(wrap(b"m", KeyFormatType::Raw, &ed, None).err(), Some(WrapError::UnsupportedAlgorithm));
}

#[test]
fn rsa_wrapping_round_trips() {
    let pair = PKey::from_rsa(Rsa::generate(2048).unwrap()).unwrap();
    let public = key("rsa", ObjectKind::PublicKey, pair.public_key_to_der().unwrap());
    let private = key("rsa", ObjectKind::PrivateKey, pair.private_key_to_pkcs8().unwrap());
    let long = vec![42u8; 5000];
    let blob = wrap(&long, KeyFormatType::PKCS8, &public, None).unwrap();
    assert_eq!(blob.wrapping.algorithm, WrappingAlgorithm::RsaOaep);
    assert_eq!(blob.wrapping.encapsulation.len(), 256);
    assert_eq!(unwrap(&blob, &private), Ok(long));
    assert_eq!(unwrap(&blob, &public), Err(WrapError::WrongKey));
    let stranger = PKey::from_rsa(Rsa::generate(2048).unwrap()).unwrap();
    let wrong = key("rsa", ObjectKind::PrivateKey, stranger.private_key_to_pkcs8().unwrap());
    assert_eq!(unwrap(&blob, &wrong), Err(WrapError::WrongKey));
    let under_private = wrap(b"m", KeyFormatType::Raw, &private, None).unwrap();
    assert_eq!(unwrap(&under_private, &private), Ok(b"m".to_vec()));
}

#[test]
fn elliptic_curve_wrapping_round_trips() {
    for nid in [Nid::X9_62_PRIME256V1, Nid::SECP384R1, Nid::SECP521R1] {
        let group = EcGroup::from_curve_name(nid).unwrap();
        let pair = PKey::from_ec_key(EcKey::generate(&group).unwrap()).unwrap();
        let public = key("ec", ObjectKind::PublicKey, pair.public_key_to_der().unwrap());
        let private = key("ec", ObjectKind::PrivateKey, pair.private_key_to_pkcs8().unwrap());
        let blob = wrap(b"secret material", KeyFormatType::PKCS8, &public, None).unwrap();
        assert_eq!(blob.wrapping.algorithm, WrappingAlgorithm::Ecies);
        assert_eq!(unwrap(&blob, &private), Ok(b"secret material".to_vec()));
        let stranger = PKey::from_ec_key(EcKey::generate(&group).unwrap()).unwrap();
        let wrong = key("ec", ObjectKind::PrivateKey, stranger.private_key_to_pkcs8().unwrap());
        assert_eq!(unwrap(&blob, &wrong), Err(WrapError::WrongKey));
    }
}

#[test]
fn x25519_wrapping_round_trips() {
    let pair = PKey::generate_x25519().unwrap();
    let public = key("x", ObjectKind::PublicKey, pair.public_key_to_der().unwrap());
    let private = key("x", ObjectKind::PrivateKey, pair.private_key_to_pkcs8().unwrap());
    let blob = wrap(b"secret material", KeyFormatType::Raw, &public, Some(WrappingAlgorithm::Ecies)).unwrap();
    assert_eq!(unwrap(&blob, &private), Ok(b"secret material".to_vec()));
}

#[test]
fn a_key_whose_parts_do_not_belong_together_is_not_found_sound() {
    let a = openssl::rsa::Rsa::generate(2048).unwrap();
    let b = openssl::rsa::Rsa::generate(2048).unwrap();
    let good = openssl::pkey::PKey::from_rsa(a.clone()).unwrap().private_key_to_pkcs8().unwrap();
    assert!(kms_core::wrapping::is_sound(&good));
    let mixed = openssl::rsa::Rsa::from_private_components(
        b.n().to_owned().unwrap(),
        a.e().to_owned().unwrap(),
        a.d().to_owned().unwrap(),
        a.p().unwrap().to_owned().unwrap(),
        a.q().unwrap().to_owned().unwrap(),
        a.dmp1().unwrap().to_owned().unwrap(),
        a.dmq1().unwrap().to_owned().unwrap(),
        a.iqmp().unwrap().to_owned().unwrap(),
    )
    .unwrap();
    let mixed = openssl::pkey::PKey::from_rsa(mixed).unwrap();
    let bad = mixed.private_key_to_pkcs8().unwrap();
    assert!(!kms_core::wrapping::is_sound(&bad));
    let to_mixed = key("k", ObjectKind::PublicKey, mixed.public_key_to_der().unwrap());
    let blob = wrap(b"secret material", KeyFormatType::Raw, &to_mixed, None).unwrap();
    assert_eq!(unwrap(&blob, &key("k", ObjectKind::PrivateKey, bad)), Err(WrapError::WrongKey));
    let to_good = key("k", ObjectKind::PublicKey, openssl::pkey::PKey::from_rsa(a.clone()).unwrap().public_key_to_der().unwrap());
    let blob = wrap(b"secret material", KeyFormatType::Raw, &to_good, None).unwrap();
    assert_eq!(unwrap(&blob, &key("k", ObjectKind::PrivateKey, good.clone())), Ok(b"secret material".to_vec()));
    let group = openssl::ec::EcGroup::from_curve_name(openssl::nid::Nid::X9_62_PRIME256V1).unwrap();
    let ec = openssl::pkey::PKey::from_ec_key(openssl::ec::EcKey::generate(&group).unwrap()).unwrap();
    assert!(kms_core::wrapping::is_sound(&ec.private_key_to_pkcs8().unwrap()));
    let x = openssl::pkey::PKey::generate_x25519().unwrap();
    assert!(!kms_core::wrapping::is_sound(&x.private_key_to_pkcs8().unwrap()));
    assert!(!kms_core::wrapping::is_sound(&[1, 2, 3]));
}

#[test]
fn sealed_data_is_made_of_what_the_provider_gave() {
    let nonce = vec![1u8; 12];
    let tag = vec![2u8; 16];
    let sealed = sealed_from(WrappingAlgorithm::Aes256Gcm, vec![], nonce.clone(), Some((vec![3, 4], tag.clone()))).unwrap();
    assert_eq!(sealed.algorithm, WrappingAlgorithm::Aes256Gcm);
    assert_eq!(sealed.nonce, nonce);
    assert_eq!(sealed.tag, tag);
    assert_eq!(sealed.data, vec![3, 4]);
    assert!(sealed.encapsulation.is_empty());
    assert_eq!(
        sealed_from(WrappingAlgorithm::RsaOaep, vec![9], nonce.clone(), None).err(),
        Some(WrapError::Provider)
    );
    assert_eq!(
        sealed_from(WrappingAlgorithm::Aes256Gcm, vec![], vec![1u8; 11], Some((vec![], tag.clone()))).err(),
        Some(WrapError::Provider)
    );
    assert_eq!(
        sealed_from(WrappingAlgorithm::Aes256Gcm, vec![], nonce, Some((vec![], vec![2u8; 15]))).err(),
        Some(WrapError::Provider)
    );
    assert_eq!(kms_core::error::KmsError::from_wrap(WrapError::Provider), kms_core::error::KmsError::Internal);
}

#[test]
fn what_cannot_be_wrapped_is_refused_as_unsupported() {
    let short = key("kek", ObjectKind::SymmetricKey, vec![7u8; 16]);
    assert_eq!(wrap(b"m", KeyFormatType::Raw, &short, None).err(), Some(WrapError::UnsupportedAlgorithm));
    let k = key("kek", ObjectKind::SymmetricKey, vec![7u8; 32]);
    assert_eq!(
        wrap(b"m", KeyFormatType::Raw, &k, Some(WrappingAlgorithm::RsaOaep)).err(),
        Some(WrapError::UnsupportedAlgorithm)
    );
    let signing = PKey::generate_ed25519().unwrap();
    let to_signing = key("s", ObjectKind::PublicKey, signing.public_key_to_der().unwrap());
    assert_eq!(wrap(b"m", KeyFormatType::Raw, &to_signing, None).err(), Some(WrapError::UnsupportedAlgorithm));
    assert!(wrap(b"m", KeyFormatType::Raw, &k, Some(WrappingAlgorithm::Aes256Gcm)).is_ok());
}
