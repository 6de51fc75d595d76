use kms_core::access::{authorize, AccessList, Identity, IdentityPolicy, Right};
use kms_core::bytes::{
    append_bytes, eq_bytes, find_byte, find_byte_from, from_hex, has_prefix, has_suffix, slice_of, to_hex,
    without_spaces,
};
use kms_core::decimal::to_decimal;
use kms_core::error::{CodecError, KmsError, ObjectError, StorageError, WrapError};
use kms_core::memory_store::{has_all_tags, has_tag, MemoryStore};
use kms_core::object::{
    Attributes, CryptographicAlgorithm, KeyBlock, KeyFormatType, KeyWrappingData, Links, Object, ObjectKind,
    WrappingAlgorithm,
};
use kms_core::pem::{armor, unarmor};
use kms_core::secret::Secret;
use kms_core::storage::{AttributeFilter, ObjectStore};

fn identity(name: &str) -> Identity {
    let policy = IdentityPolicy { default_username: "admin".to_string(), force_default_username: false };
    policy.resolve(Some(name))
}

#[test]
fn numbers_are_written_without_leading_zeros() {
    assert_eq!(to_decimal(0), "0");
    assert_eq!(to_decimal(7), "7");
    assert_eq!(to_decimal(10), "10");
    assert_eq!(to_decimal(9990), "9990");
    assert_eq!(to_decimal(u64::MAX), "18446744073709551615");
}

#[test]
fn byte_strings() {
    assert!(eq_bytes(b"abc", b"abc"));
    assert!(!eq_bytes(b"abc", b"abd"));
    assert!(!eq_bytes(b"abc", b"ab"));
    assert_eq!(slice_of(b"hello", 1, 3), b"el".to_vec());
    let mut buffer = b"ab".to_vec();
    append_bytes(&mut buffer, b"cd");
    assert_eq!(buffer, b"abcd".to_vec());
    assert_eq!(find_byte(b"a\nb\n", 10), 1);
    assert_eq!(find_byte_from(b"a\nb\n", 10, 2), 3);
    assert_eq!(find_byte(b"ab", 10), 2);
    assert_eq!(without_spaces(b" a\r\n\tb c\n"), b"abc".to_vec());
    assert!(has_prefix(b"-----BEGIN", b"-----"));
    assert!(!has_prefix(b"--", b"-----"));
    assert!(has_suffix(b"KEY-----", b"-----"));
    assert!(!has_suffix(b"KEY----", b"-----"));
}

#[test]
fn hexadecimal_text() {
    assert_eq!(to_hex(&[]), Vec::<u8>::new());
    assert_eq!(to_hex(&[0, 1, 0x9a, 0xff]), b"00019aff".to_vec());
    assert_eq!(from_hex(b"00019aff"), Some(vec![0, 1, 0x9a, 0xff]));
    assert_eq!(from_hex(b""), Some(vec![]));
    assert_eq!(from_hex(b"0"), None);
    assert_eq!(from_hex(b"0g"), None);
    assert_eq!(from_hex(b"0A"), None);
    let all: Vec<u8> = (0..=255).collect();
    assert_eq!(from_hex(&to_hex(&all)), Some(all));
}

#[test]
fn armour_is_cut_into_lines_of_sixty_four() {
    let der: Vec<u8> = (0..100).collect();
    let text = String::from_utf8(armor(b"TEST", &der)).unwrap();
    let lines: Vec<&str> = text.lines().collect();
    assert_eq!(lines[0], "-----BEGIN TEST-----");
    assert_eq!(lines[1].len(), 64);
    assert_eq!(lines[2].len(), 64);
    assert_eq!(lines[3].len(), 8);
    assert_eq!(lines[4], "-----END TEST-----");
    assert_eq!(lines.len(), 5);
    assert!(text.ends_with("-----\n"));
    assert_eq!(unarmor(text.as_bytes()), Some((b"TEST".to_vec(), der)));
    assert_eq!(
        String::from_utf8(armor(b"EMPTY", &[])).unwrap(),
        "-----BEGIN EMPTY-----\n-----END EMPTY-----\n"
    );
    assert_eq!(unarmor(b"-----BEGIN EMPTY-----\n-----END EMPTY-----\n"), Some((b"EMPTY".to_vec(), vec![])));
    assert_eq!(unarmor(b"-----BEGIN A-----\nAAAA\n-----END B-----\n"), None);
    assert_eq!(unarmor(b"-----BEGIN A-----"), None);
    assert_eq!(unarmor(b"-----BEGIN A-----\n!!!!\n-----END A-----\n"), None);
    assert_eq!(unarmor(b"-----BEGIN A-----\nAAAA-----END A-----"), Some((b"A".to_vec(), vec![0, 0, 0])));
}

#[test]
fn access_lists() {
    let mut list = AccessList::new("owner".to_string());
    let owner = "owner".to_string();
    let user = "user".to_string();
    for right in [Right::Get, Right::Encrypt, Right::Decrypt, Right::Export, Right::Destroy, Right::Link] {
        assert!(list.permits(&owner, right));
        assert!(!list.permits(&user, right));
    }
    assert!(list.knows(&owner));
    assert!(!list.knows(&user));
    list.grant(&user, Right::Get);
    list.grant(&user, Right::Get);
    list.grant(&user, Right::Link);
    assert_eq!(list.grants.len(), 2);
    assert!(list.permits(&user, Right::Get));
    assert!(list.granted(&user, Right::Link));
    assert!(!list.granted(&owner, Right::Get));
    assert!(list.knows(&user));
    list.revoke(&user, Right::Get);
    assert!(!list.permits(&user, Right::Get));
    assert!(list.knows(&user));
    list.revoke(&user, Right::Link);
    assert!(!list.knows(&user));
    assert_eq!(list.clone().owner, "owner");

    assert_eq!(authorize(None, &identity("owner"), Right::Get), Err(StorageError::NotFound));
    assert_eq!(authorize(Some(&list), &identity("owner"), Right::Destroy), Ok(()));
    assert_eq!(authorize(Some(&list), &identity("user"), Right::Get), Err(StorageError::NotFound));
    list.grant(&user, Right::Encrypt);
    assert_eq!(authorize(Some(&list), &identity("user"), Right::Get), Err(StorageError::Unauthorized));
    assert_eq!(authorize(Some(&list), &identity("user"), Right::Encrypt), Ok(()));
}

fn key(bytes: Vec<u8>, length: usize) -> Object {
    Object::SymmetricKey {
        key_block: KeyBlock {
            key_format_type: KeyFormatType::Raw,
            key_material: bytes,
            cryptographic_algorithm: Some(CryptographicAlgorithm::AES),
            cryptographic_length: Some(length),
            key_wrapping_data: None,
        },
    }
}

#[test]
fn objects_are_checked_for_consistency() {
    let good = key(vec![0; 16], 128);
    let attributes = good.attributes(60, Links::none());
    assert_eq!(good.validate(&attributes), Ok(()));
    assert_eq!(attributes.object_type, ObjectKind::SymmetricKey);
    assert_eq!(attributes.key_format_type, KeyFormatType::Raw);
    assert_eq!(attributes.cryptographic_algorithm, Some(CryptographicAlgorithm::AES));
    assert_eq!(attributes.cryptographic_length, Some(128));
    assert_eq!(attributes.cryptographic_usage_mask, 60);

    let short = key(vec![0; 15], 128);
    assert_eq!(short.validate(&short.attributes(60, Links::none())), Err(ObjectError::LengthMismatch));
    let odd = key(vec![0; 4], 32);
    assert_eq!(odd.validate(&odd.attributes(60, Links::none())), Err(ObjectError::LengthMismatch));

    let mut wrong_format = key(vec![0; 16], 128);
    if let Object::SymmetricKey { key_block } = &mut wrong_format {
        key_block.key_format_type = KeyFormatType::PKCS8;
    }
    assert_eq!(
        wrong_format.validate(&wrong_format.attributes(60, Links::none())),
        Err(ObjectError::FormatMismatch)
    );
    let mut wrong_algorithm = key(vec![0; 16], 128);
    if let Object::SymmetricKey { key_block } = &mut wrong_algorithm {
        key_block.cryptographic_algorithm = Some(CryptographicAlgorithm::RSA);
    }
    assert_eq!(
        wrong_algorithm.validate(&wrong_algorithm.attributes(60, Links::none())),
        Err(ObjectError::AlgorithmMismatch)
    );
    let mut linked = Links::none();
    linked.certificate_id = Some("c".to_string());
    assert_eq!(good.validate(&good.attributes(60, linked)), Err(ObjectError::InvalidLink));

    let mut other = good.attributes(60, Links::none());
    other.cryptographic_length = Some(256);
    assert_eq!(good.validate(&other), Err(ObjectError::LengthMismatch));
    let mut other: Attributes = good.attributes(60, Links::none());
    other.object_type = ObjectKind::PrivateKey;
    assert_eq!(good.validate(&other), Err(ObjectError::FormatMismatch));

    let mut wrapped = key(vec![0; 40], 256);
    if let Object::SymmetricKey { key_block } = &mut wrapped {
        key_block.key_wrapping_data = Some(KeyWrappingData {
            wrapping_key_id: "kek".to_string(),
            algorithm: WrappingAlgorithm::Aes256Gcm,
            nonce: vec![0; 12],
            tag: vec![0; 16],
            encapsulation: vec![],
            original_format: KeyFormatType::PEM,
        });
    }
    assert_eq!(wrapped.validate(&wrapped.attributes(60, Links::none())), Err(ObjectError::InvalidWrapping));
    assert!(wrapped.is_wrapped());
    assert!(!good.is_wrapped());
    assert!(good.same(&key(vec![0; 16], 128)));
    assert!(!good.same(&short));

    let private = Links { private_key_id: None, public_key_id: Some("p".into()), certificate_id: Some("c".into()), issuer_certificate_id: None };
    assert!(private.fits(ObjectKind::PrivateKey));
    assert!(!private.fits(ObjectKind::PublicKey));
    assert!(!private.fits(ObjectKind::Certificate));
    assert!(!private.fits(ObjectKind::SymmetricKey));
    assert!(Links::none().fits(ObjectKind::SymmetricKey));
    assert!(CryptographicAlgorithm::EC.admits_length(521));
    assert!(!CryptographicAlgorithm::EC.admits_length(512));
    assert!(CryptographicAlgorithm::ChaCha20.is_symmetric());
    assert!(!CryptographicAlgorithm::X25519.is_symmetric());
    assert_eq!(ObjectKind::PrivateKey.canonical_format(), KeyFormatType::PKCS8);
    assert_eq!(ObjectKind::Certificate.canonical_format(), KeyFormatType::X509);
}

#[test]
fn errors_map_into_the_taxonomy() {
    assert_eq!(KmsError::from_object(ObjectError::InvalidLink), KmsError::InvalidParameter);
    assert_eq!(KmsError::from_codec(CodecError::MalformedInput), KmsError::MalformedInput);
    assert_eq!(KmsError::from_codec(CodecError::AlgorithmMismatch), KmsError::AlgorithmMismatch);
    assert_eq!(KmsError::from_codec(CodecError::UnsupportedFormat), KmsError::UnsupportedFormat);
    assert_eq!(KmsError::from_codec(CodecError::UnsupportedConversion), KmsError::UnsupportedConversion);
    assert_eq!(KmsError::from_codec(CodecError::AuthenticationFailed), KmsError::AuthenticationFailed);
    assert_eq!(KmsError::from_wrap(WrapError::WrongKey), KmsError::WrongKey);
    assert_eq!(KmsError::from_wrap(WrapError::UnsupportedAlgorithm), KmsError::UnsupportedAlgorithm);
    assert_eq!(KmsError::from_storage(StorageError::NotFound), KmsError::NotFound);
    assert_eq!(KmsError::from_storage(StorageError::Unauthorized), KmsError::Unauthorized);
    assert_eq!(KmsError::from_storage(StorageError::AlreadyExists), KmsError::AlreadyExists);
    assert_eq!(KmsError::from_storage(StorageError::Backend), KmsError::StorageError);
}

#[test]
fn the_memory_store_keeps_what_it_is_given() {
    let owner = identity("owner");
    let user = identity("user");
    let mut store = MemoryStore::new();
    assert_eq!(store.len(), 0);
    let object = key(vec![1; 16], 128);
    let attributes = object.attributes(60, Links::none());
    let id = store
        .insert(Some("a".to_string()), object.clone(), attributes.clone(), vec!["x".to_string()], false, &owner, 5)
        .unwrap();
    assert_eq!(id, "a");
    assert_eq!(
        store.insert(Some("a".to_string()), object.clone(), attributes.clone(), vec![], false, &user, 6),
        Err(StorageError::AlreadyExists)
    );
    assert_eq!(store.insert(None, object.clone(), attributes.clone(), vec![], false, &owner, 7), Ok("0".to_string()));
    assert_eq!(store.len(), 2);
    let (got, got_attributes) = store.get(&id, &owner).unwrap();
    assert!(got.same(&object));
    assert_eq!(got_attributes.cryptographic_length, Some(128));
    assert_eq!(store.get(&id, &user).err(), Some(StorageError::NotFound));
    assert_eq!(store.permitted(&id, &owner, Right::Export), Ok(()));
    assert_eq!(store.permitted(&"nowhere".to_string(), &owner, Right::Get), Err(StorageError::NotFound));

    assert_eq!(store.add_tags(&id, vec!["y".to_string(), "x".to_string()], &user), Err(StorageError::NotFound));
    assert_eq!(store.add_tags(&id, vec!["y".to_string(), "x".to_string()], &owner), Ok(()));
    let both = vec!["x".to_string(), "y".to_string()];
    assert_eq!(store.locate(&both, &AttributeFilter::any(), &owner), Ok(vec!["a".to_string()]));
    assert_eq!(store.locate(&vec![], &AttributeFilter::any(), &owner).unwrap().len(), 2);
    assert!(has_tag(&both, &"y".to_string()));
    assert!(!has_tag(&both, &"z".to_string()));
    assert!(has_all_tags(&both, &vec!["y".to_string()]));
    assert!(!has_all_tags(&both, &vec!["y".to_string(), "z".to_string()]));
    assert!(has_all_tags(&both, &vec![]));

    let mut changed = attributes.clone();
    changed.cryptographic_usage_mask = 4;
    assert_eq!(store.update_attributes(&id, changed, &owner), Ok(()));
    assert_eq!(store.get(&id, &owner).unwrap().1.cryptographic_usage_mask, 4);
    assert_eq!(store.grant(&id, &user, &"user".to_string(), Right::Get), Err(StorageError::NotFound));
    assert_eq!(store.grant(&id, &owner, &"user".to_string(), Right::Get), Ok(()));
    assert!(store.get(&id, &user).is_ok());
    assert_eq!(store.fetch(&id, &user, Right::Decrypt).err(), Some(StorageError::Unauthorized));
    assert_eq!(store.withdraw(&id, &owner, &"user".to_string(), Right::Get), Ok(()));
    assert_eq!(store.get(&id, &user).err(), Some(StorageError::NotFound));
    assert_eq!(store.revoke(&id, &owner, 9), Ok(()));
    assert_eq!(store.get(&id, &owner).err(), Some(StorageError::NotFound));
    assert_eq!(store.destroy(&id, &user), Err(StorageError::NotFound));
    assert_eq!(store.destroy(&id, &owner), Ok(()));
    assert_eq!(store.len(), 1);
    assert_eq!(store.destroy(&id, &owner), Err(StorageError::NotFound));
}

#[test]
fn secrets_are_wiped() {
    let mut secret = Secret::new(vec![1, 2, 3]);
    assert_eq!(secret.len(), 3);
    assert_eq!(secret.as_slice(), &[1, 2, 3]);
    secret.clear();
    assert_eq!(secret.len(), 0);
    assert!(secret.as_slice().is_empty());
}
