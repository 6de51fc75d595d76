use kms_core::access::{Identity, IdentityPolicy};
use kms_core::codec::decode_pkcs12;
use kms_core::engine::Engine;
use kms_core::error::{CodecError, KmsError};
use kms_core::memory_store::MemoryStore;
use kms_core::object::{CryptographicAlgorithm, KeyFormatType, ObjectKind};
use kms_core::storage::AttributeFilter;
use openssl::asn1::Asn1Time;
use openssl::bn::BigNum;
use openssl::hash::MessageDigest;
use openssl::pkcs12::Pkcs12;
use openssl::pkey::{PKey, Private};
use openssl::rsa::Rsa;
use openssl::stack::Stack;
use openssl::x509::{X509NameBuilder, X509};

fn identity(name: &str) -> Identity {
    let policy = IdentityPolicy { default_username: "admin".to_string(), force_default_username: false };
    policy.resolve(Some(name))
}

fn certificate(subject: &str, key: &PKey<Private>, issuer: &str, signer: &PKey<Private>) -> X509 {
    let mut subject_name = X509NameBuilder::new().unwrap();
    subject_name.append_entry_by_text("CN", subject).unwrap();
    let subject_name = subject_name.build();
    let mut issuer_name = X509NameBuilder::new().unwrap();
    issuer_name.append_entry_by_text("CN", issuer).unwrap();
    let issuer_name = issuer_name.build();
    let mut builder = X509::builder().unwrap();
    builder.set_version(2).unwrap();
    builder.set_serial_number(&BigNum::from_u32(1).unwrap().to_asn1_integer().unwrap()).unwrap();
    builder.set_subject_name(&subject_name).unwrap();
    builder.set_issuer_name(&issuer_name).unwrap();
    builder.set_pubkey(key).unwrap();
    builder.set_not_before(&Asn1Time::days_from_now(0).unwrap()).unwrap();
    builder.set_not_after(&Asn1Time::days_from_now(30).unwrap()).unwrap();
    builder.sign(signer, MessageDigest::sha256()).unwrap();
    builder.build()
}

struct Archive {
    der: Vec<u8>,
    key: PKey<Private>,
    leaf: X509,
    authority: X509,
}

fn archive(passphrase: &str) -> Archive {
    let authority_key = PKey::from_rsa(Rsa::generate(2048).unwrap()).unwrap();
    let authority = certificate("authority", &authority_key, "authority", &authority_key);
    let key = PKey::from_rsa(Rsa::generate(2048).unwrap()).unwrap();
    let leaf = certificate("luks", &key, "authority", &authority_key);
    let mut chain = Stack::new().unwrap();
    chain.push(authority.clone()).unwrap();
    let mut builder = Pkcs12::builder();
    builder.name("luks").pkey(&key).cert(&leaf).ca(chain);
    let der = builder.build2(passphrase).unwrap().to_der().unwrap();
    Archive { der, key, leaf, authority }
}

#[test]
fn archive_opens_under_its_passphrase_only() {
    let a = archive("secret");
    let contents = decode_pkcs12(&a.der, Some("secret")).unwrap();
    assert_eq!(contents.private_key.kind, ObjectKind::PrivateKey);
    assert_eq!(contents.private_key.algorithm, CryptographicAlgorithm::RSA);
    assert_eq!(contents.private_key.length, 2048);
    assert_eq!(contents.private_key.bytes, a.key.private_key_to_pkcs8().unwrap());
    assert_eq!(contents.certificate, Some(a.leaf.to_der().unwrap()));
    assert_eq!(contents.chain, vec![a.authority.to_der().unwrap()]);
    assert_eq!(decode_pkcs12(&a.der, Some("wrong")).err(), Some(CodecError::AuthenticationFailed));
    assert_eq!(decode_pkcs12(&a.der, None).err(), Some(CodecError::AuthenticationFailed));
    assert_eq!(decode_pkcs12(&a.der, Some("sec\0ret")).err(), Some(CodecError::AuthenticationFailed));
    assert_eq!(decode_pkcs12(&[1, 2, 3], Some("secret")).err(), Some(CodecError::MalformedInput));
}

#[test]
fn importing_an_archive_stores_the_key_with_its_certificates() {
    let owner = identity("owner");
    let mut engine = Engine::new(MemoryStore::new());
    let a = archive("secret");
    let tags = vec!["disk-encryption".to_string(), "luks_volume".to_string()];
    let ids = engine
        .import_pkcs12(Some("test.p12".to_string()), &a.der, Some("secret"), true, &tags, &owner, 1)
        .unwrap();
    assert_eq!(ids.private_key_id, "test.p12");
    let certificate_id = ids.certificate_id.clone().unwrap();
    assert_eq!(ids.chain_ids.len(), 1);

    let mut filter = AttributeFilter::any();
    filter.object_type = Some(ObjectKind::Certificate);
    let certificates = engine.locate(&vec!["luks_volume".to_string()], &filter, &owner).unwrap();
    assert_eq!(certificates.len(), 2);
    assert!(certificates.contains(&certificate_id));
    filter.object_type = Some(ObjectKind::PrivateKey);
    let private_keys = engine.locate(&vec!["disk-encryption".to_string()], &filter, &owner).unwrap();
    assert_eq!(private_keys, vec!["test.p12".to_string()]);

    let key_attributes = engine.get_attributes(&ids.private_key_id, &owner).unwrap();
    assert_eq!(key_attributes.links.certificate_id, Some(certificate_id.clone()));
    assert_eq!(key_attributes.key_format_type, KeyFormatType::PKCS1);
    assert_eq!(key_attributes.cryptographic_algorithm, Some(CryptographicAlgorithm::RSA));
    let certificate_attributes = engine.get_attributes(&certificate_id, &owner).unwrap();
    assert_eq!(certificate_attributes.links.private_key_id, Some("test.p12".to_string()));
    assert_eq!(certificate_attributes.key_format_type, KeyFormatType::X509);
    assert_eq!(
        engine.export_plain(&certificate_id, KeyFormatType::X509, false, &owner),
        Ok(a.leaf.to_der().unwrap())
    );
    assert_eq!(
        engine.export_plain(&certificate_id, KeyFormatType::PEM, false, &owner),
        Ok(a.leaf.to_pem().unwrap())
    );
    assert_eq!(
        engine.export_plain(&ids.private_key_id, KeyFormatType::PKCS1, false, &owner),
        Ok(a.key.rsa().unwrap().private_key_to_der().unwrap())
    );

    assert_eq!(
        engine.import_pkcs12(None, &a.der, Some("wrong"), false, &tags, &owner, 2).err(),
        Some(KmsError::AuthenticationFailed)
    );
    assert_eq!(engine.store.len(), 3);
}

#[test]
fn test_get_attributes_p12() {
    let owner = identity("owner");
    let mut engine = Engine::new(MemoryStore::new());
    let a = archive("secret");
    let tags = vec!["import_pkcs12".to_string()];
    let imported_p12_sk_uid = engine
        .import_pkcs12(
            Some("get_attributes_test_p12_cert".to_string()),
            &a.der,
            Some("secret"),
            true,
            &tags,
            &owner,
            1,
        )
        .unwrap()
        .private_key_id;

    let attributes = engine.get_attributes(&imported_p12_sk_uid, &owner).unwrap();
    assert!(attributes.links.public_key_id.is_none());
    assert_eq!(attributes.key_format_type, KeyFormatType::PKCS1);
    let intermediate_certificate_id = attributes.links.certificate_id.unwrap();

    let attributes = engine.get_attributes(&intermediate_certificate_id, &owner).unwrap();
    assert_eq!(attributes.key_format_type, KeyFormatType::X509);
    assert_eq!(attributes.links.private_key_id, Some(imported_p12_sk_uid));
    assert!(attributes.links.issuer_certificate_id.is_none());
}

#[test]
fn a_key_from_an_archive_is_held_in_pkcs1_and_works() {
    let owner = identity("owner");
    let mut engine = Engine::new(MemoryStore::new());
    let a = archive("secret");
    let ids = engine.import_pkcs12(None, &a.der, Some("secret"), false, &vec![], &owner, 1).unwrap();
    let (key, attributes) = engine.get(&ids.private_key_id, &owner).unwrap();
    assert_eq!(key.validate(&attributes), Ok(()));
    assert_eq!(key.bytes(), &a.key.rsa().unwrap().private_key_to_der().unwrap());
    assert_eq!(
        engine.export_plain(&ids.private_key_id, KeyFormatType::PKCS8, false, &owner),
        Ok(a.key.private_key_to_pkcs8().unwrap())
    );
    let certificate_id = ids.certificate_id.unwrap();
    let sealed = engine.encrypt(&certificate_id, b"to the archive's key", b"", &owner).unwrap();
    assert_eq!(
        engine.decrypt(&ids.private_key_id, &sealed, b"", &owner),
        Ok(b"to the archive's key".to_vec())
    );
    assert_eq!(engine.decrypt(&certificate_id, &sealed, b"", &owner), Ok(b"to the archive's key".to_vec()));
}

#[test]
fn an_archive_over_a_taken_identifier_is_refused_and_changes_nothing() {
    let owner = identity("owner");
    let mut engine = Engine::new(MemoryStore::new());
    let a = archive("secret");
    engine.import_pkcs12(Some("k".to_string()), &a.der, Some("secret"), false, &vec![], &owner, 1).unwrap();
    let before = engine.store.len();
    assert_eq!(
        engine.import_pkcs12(Some("k".to_string()), &a.der, Some("secret"), false, &vec![], &owner, 2).err(),
        Some(KmsError::AlreadyExists)
    );
    assert_eq!(engine.store.len(), before);
}
