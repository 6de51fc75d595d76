use kms_core::access::{Identity, IdentityPolicy, Right};
use kms_core::engine::Engine;
use kms_core::error::KmsError;
use kms_core::export::ExportRequest;
use kms_core::import::ImportRequest;
use kms_core::interchange::{from_interchange, to_interchange};
use kms_core::memory_store::MemoryStore;
use kms_core::object::{KeyBlock, KeyFormatType, Links, Object, ObjectKind, WrappingAlgorithm};
use kms_core::storage::AttributeFilter;
use openssl::asn1::Asn1Time;
use openssl::bn::BigNum;
use openssl::ec::{EcGroup, EcKey};
use openssl::hash::MessageDigest;
use openssl::nid::Nid;
use openssl::pkey::{PKey, Private};
use openssl::rsa::Rsa;
use openssl::x509::{X509NameBuilder, X509};

fn identity(name: &str) -> Identity {
    let policy = IdentityPolicy { default_username: "admin".to_string(), force_default_username: false };
    policy.resolve(Some(name))
}

fn certificate(subject: &str, key: &PKey<Private>, issuer: &str, signer: &PKey<Private>) -> X509 {
    let mut subject_name = X509NameBuilder::new().unwrap();
    subject_name.append_entry_by_text("CN", subject).unwrap();
    let subject_name = subject_name.build();
    let mut issuer_name = X509NameBuilder::new().unwrap();
    issuer_name.append_entry_by_text("CN", issuer).unwrap();
    let issuer_name = issuer_name.build();
    let mut builder = X509::builder().unwrap();
    builder.set_version(2).unwrap();
    builder.set_serial_number(&BigNum::from_u32(1).unwrap().to_asn1_integer().unwrap()).unwrap();
    builder.set_subject_name(&subject_name).unwrap();
    builder.set_issuer_name(&issuer_name).unwrap();
    builder.set_pubkey(key).unwrap();
    builder.set_not_before(&Asn1Time::days_from_now(0).unwrap()).unwrap();
    builder.set_not_after(&Asn1Time::days_from_now(30).unwrap()).unwrap();
    builder.sign(signer, MessageDigest::sha256()).unwrap();
    builder.build()
}

fn ec_pair() -> PKey<Private> {
    let group = EcGroup::from_curve_name(Nid::X9_62_PRIME256V1).unwrap();
    PKey::from_ec_key(EcKey::generate(&group).unwrap()).unwrap()
}

fn key_object(kind: ObjectKind, format: KeyFormatType, bytes: Vec<u8>) -> Object {
    let key_block = KeyBlock {
        key_format_type: format,
        key_material: bytes,
        cryptographic_algorithm: None,
        cryptographic_length: None,
        key_wrapping_data: None,
    };
    match kind {
        ObjectKind::PrivateKey => Object::PrivateKey { key_block },
        ObjectKind::PublicKey => Object::PublicKey { key_block },
        _ => Object::SymmetricKey { key_block },
    }
}

fn certificate_object(bytes: Vec<u8>) -> Object {
    Object::Certificate { certificate_value: bytes, subject: vec![], issuer: vec![] }
}

fn no_links() -> Links {
    Links { private_key_id: None, public_key_id: None, certificate_id: None, issuer_certificate_id: None }
}

fn request(id: Option<&str>, object: Object, tags: &[&str], links: Links) -> ImportRequest {
    ImportRequest {
        id: id.map(|s| s.to_string()),
        object,
        unwrap: false,
        replace_existing: false,
        tags: tags.iter().map(|t| t.to_string()).collect(),
        links,
    }
}

#[test]
fn wrapped_export_and_import_scenario() {
    let owner = identity("owner");
    let mut engine = Engine::new(MemoryStore::new());
    let pair = ec_pair();
    let cert = certificate("holder", &pair, "holder", &pair);
    let key_pem = pair.private_key_to_pem_pkcs8().unwrap();
    let cert_pem = cert.to_pem().unwrap();

    let key_id = engine
        .import(request(None, key_object(ObjectKind::PrivateKey, KeyFormatType::PEM, key_pem.clone()), &["cert"], no_links()), &owner, 1)
        .unwrap();
    let mut links = no_links();
    links.private_key_id = Some(key_id.clone());
    let cert_id = engine.import(request(None, certificate_object(cert_pem.clone()), &["cert"], links), &owner, 2).unwrap();

    let wrapped = engine
        .export(
            &ExportRequest {
                id: key_id.clone(),
                format: KeyFormatType::JsonInterchange,
                wrapping_key_id: Some(cert_id.clone()),
                unwrap: false,
            },
            &owner,
        )
        .unwrap();
    let travelling = from_interchange(&wrapped).unwrap();
    assert_eq!(travelling.kind(), ObjectKind::PrivateKey);
    assert!(travelling.is_wrapped());
    let block = travelling.key_block().unwrap();
    assert_eq!(block.key_format_type, KeyFormatType::PKCS8);
    let metadata = block.key_wrapping_data.as_ref().unwrap();
    assert_eq!(metadata.wrapping_key_id, cert_id);
    assert_eq!(metadata.algorithm, WrappingAlgorithm::Ecies);
    assert_eq!(metadata.original_format, KeyFormatType::PKCS8);
    assert_ne!(block.key_material, pair.private_key_to_pkcs8().unwrap());

    let again_id = engine.import(request(Some("again"), travelling, &["cert"], no_links()), &owner, 3).unwrap();
    assert_eq!(again_id, "again");
    let (stored, _) = engine.get(&again_id, &owner).unwrap();
    assert!(stored.is_wrapped());
    assert_eq!(
        engine.export_plain(&again_id, KeyFormatType::PEM, false, &owner),
        Err(KmsError::UnsupportedConversion)
    );
    let plain = engine
        .export(
            &ExportRequest { id: again_id.clone(), format: KeyFormatType::PEM, wrapping_key_id: None, unwrap: true },
            &owner,
        )
        .unwrap();
    assert_eq!(plain, key_pem);
    let (still, _) = engine.get(&again_id, &owner).unwrap();
    assert!(still.is_wrapped());

    let mut found = engine.locate(&vec!["cert".to_string()], &AttributeFilter::any(), &owner).unwrap();
    found.sort();
    let mut expected = vec![key_id, cert_id, again_id];
    expected.sort();
    assert_eq!(found, expected);
}

#[test]
fn importing_a_linked_certificate_links_the_key_back() {
    let owner = identity("owner");
    let mut engine = Engine::new(MemoryStore::new());
    let pair = ec_pair();
    let cert = certificate("holder", &pair, "holder", &pair);
    engine
        .import(
            request(Some("K"), key_object(ObjectKind::PrivateKey, KeyFormatType::PKCS8, pair.private_key_to_pkcs8().unwrap()), &[], no_links()),
            &owner,
            1,
        )
        .unwrap();
    assert_eq!(engine.get_attributes(&"K".to_string(), &owner).unwrap().links.certificate_id, None);
    let mut links = no_links();
    links.private_key_id = Some("K".to_string());
    let cert_id = engine.import(request(None, certificate_object(cert.to_der().unwrap()), &[], links), &owner, 2).unwrap();
    let key_attributes = engine.get_attributes(&"K".to_string(), &owner).unwrap();
    assert_eq!(key_attributes.links.certificate_id, Some(cert_id.clone()));
    let cert_attributes = engine.get_attributes(&cert_id, &owner).unwrap();
    assert_eq!(cert_attributes.links.private_key_id, Some("K".to_string()));
    assert_eq!(cert_attributes.object_type, ObjectKind::Certificate);
    assert_eq!(cert_attributes.key_format_type, KeyFormatType::X509);

    assert_eq!(engine.destroy(&cert_id, &owner), Ok(0));
    assert_eq!(engine.get_attributes(&"K".to_string(), &owner).unwrap().links.certificate_id, None);
}

#[test]
fn links_must_name_objects_of_the_right_kind_that_the_caller_may_link() {
    let owner = identity("owner");
    let user = identity("user");
    let mut engine = Engine::new(MemoryStore::new());
    let pair = ec_pair();
    let cert = certificate("holder", &pair, "holder", &pair);
    engine
        .import(
            request(Some("K"), key_object(ObjectKind::PrivateKey, KeyFormatType::PKCS8, pair.private_key_to_pkcs8().unwrap()), &[], no_links()),
            &owner,
            1,
        )
        .unwrap();
    engine
        .import(
            request(Some("P"), key_object(ObjectKind::PublicKey, KeyFormatType::SPKI, pair.public_key_to_der().unwrap()), &[], no_links()),
            &owner,
            1,
        )
        .unwrap();
    let mut absent = no_links();
    absent.private_key_id = Some("nowhere".to_string());
    assert_eq!(
        engine.import(request(None, certificate_object(cert.to_der().unwrap()), &[], absent), &owner, 2),
        Err(KmsError::NotFound)
    );
    let mut wrong_kind = no_links();
    wrong_kind.private_key_id = Some("P".to_string());
    assert_eq!(
        engine.import(request(None, certificate_object(cert.to_der().unwrap()), &[], wrong_kind), &owner, 2),
        Err(KmsError::InvalidParameter)
    );
    let mut own_kind = no_links();
    own_kind.certificate_id = Some("K".to_string());
    assert_eq!(
        engine.import(request(None, certificate_object(cert.to_der().unwrap()), &[], own_kind), &owner, 2),
        Err(KmsError::InvalidParameter)
    );
    let mut to_key = no_links();
    to_key.private_key_id = Some("K".to_string());
    assert_eq!(
        engine.import(request(None, certificate_object(cert.to_der().unwrap()), &[], to_key), &user, 2),
        Err(KmsError::NotFound)
    );
    engine.grant_access(&"K".to_string(), &owner, &"user".to_string(), Right::Get).unwrap();
    let mut to_key = no_links();
    to_key.private_key_id = Some("K".to_string());
    assert_eq!(
        engine.import(request(None, certificate_object(cert.to_der().unwrap()), &[], to_key), &user, 2),
        Err(KmsError::Unauthorized)
    );
    engine.grant_access(&"K".to_string(), &owner, &"user".to_string(), Right::Link).unwrap();
    let mut to_key = no_links();
    to_key.private_key_id = Some("K".to_string());
    let cert_id = engine.import(request(None, certificate_object(cert.to_der().unwrap()), &[], to_key), &user, 2).unwrap();
    assert_eq!(engine.get_attributes(&"K".to_string(), &owner).unwrap().links.certificate_id, Some(cert_id));
    assert_eq!(engine.store.len(), 3);
}

#[test]
fn a_holder_of_the_get_right_cannot_export_a_private_key() {
    let owner = identity("owner");
    let user = identity("user");
    let mut engine = Engine::new(MemoryStore::new());
    let pair = ec_pair();
    engine
        .import(
            request(Some("K"), key_object(ObjectKind::PrivateKey, KeyFormatType::PKCS8, pair.private_key_to_pkcs8().unwrap()), &[], no_links()),
            &owner,
            1,
        )
        .unwrap();
    engine
        .import(
            request(Some("P"), key_object(ObjectKind::PublicKey, KeyFormatType::SPKI, pair.public_key_to_der().unwrap()), &[], no_links()),
            &owner,
            1,
        )
        .unwrap();
    for id in ["K", "P"] {
        engine.grant_access(&id.to_string(), &owner, &"user".to_string(), Right::Get).unwrap();
    }
    assert_eq!(
        engine.export_plain(&"K".to_string(), KeyFormatType::PKCS8, false, &user),
        Err(KmsError::Unauthorized)
    );
    assert_eq!(engine.get(&"K".to_string(), &user).err(), Some(KmsError::Unauthorized));
    assert!(engine.get_attributes(&"K".to_string(), &user).is_ok());
    assert_eq!(
        engine.export_plain(&"P".to_string(), KeyFormatType::SPKI, false, &user),
        Ok(pair.public_key_to_der().unwrap())
    );
    assert_eq!(
        engine.export_plain(&"K".to_string(), KeyFormatType::PKCS8, false, &owner),
        Ok(pair.private_key_to_pkcs8().unwrap())
    );
    assert_eq!(
        engine.export_plain(&"K".to_string(), KeyFormatType::SEC1, false, &owner),
        Ok(pair.ec_key().unwrap().private_key_to_der().unwrap())
    );
}

#[test]
fn unwrapping_on_import_stores_the_plain_key() {
    let owner = identity("owner");
    let mut engine = Engine::new(MemoryStore::new());
    let rsa = PKey::from_rsa(Rsa::generate(2048).unwrap()).unwrap();
    engine
        .import(
            request(Some("wrapper"), key_object(ObjectKind::PrivateKey, KeyFormatType::PKCS8, rsa.private_key_to_pkcs8().unwrap()), &[], no_links()),
            &owner,
            1,
        )
        .unwrap();
    let secret = engine.create(kms_core::object::CryptographicAlgorithm::AES, 256, None, vec![], &owner, 1).unwrap();
    let plain = engine.export_plain(&secret, KeyFormatType::Raw, false, &owner).unwrap();
    let wrapped = engine.export_wrapped(&secret, KeyFormatType::Raw, &"wrapper".to_string(), false, &owner).unwrap();
    let travelling = from_interchange(&wrapped).unwrap();
    assert_eq!(
        travelling.key_block().unwrap().key_wrapping_data.as_ref().unwrap().algorithm,
        WrappingAlgorithm::RsaOaep
    );
    let mut unwrap_it = request(Some("plain"), travelling.clone(), &[], no_links());
    unwrap_it.unwrap = true;
    engine.import(unwrap_it, &owner, 2).unwrap();
    let (stored, attributes) = engine.get(&"plain".to_string(), &owner).unwrap();
    assert!(!stored.is_wrapped());
    assert_eq!(stored.bytes(), &plain);
    assert_eq!(attributes.cryptographic_length, Some(256));

    engine.import(request(Some("kept"), travelling, &[], no_links()), &owner, 3).unwrap();
    assert!(engine.get(&"kept".to_string(), &owner).unwrap().0.is_wrapped());
    let sealed = engine.encrypt(&"kept".to_string(), b"data", b"", &owner).unwrap();
    assert_eq!(engine.decrypt(&"plain".to_string(), &sealed, b"", &owner), Ok(b"data".to_vec()));
    assert!(engine.get(&"kept".to_string(), &owner).unwrap().0.is_wrapped());

    assert_eq!(engine.destroy(&"wrapper".to_string(), &owner), Ok(0));
    assert_eq!(engine.encrypt(&"kept".to_string(), b"data", b"", &owner).err(), Some(KmsError::NotFound));
}

#[test]
fn interchange_documents_read_back() {
    let pair = ec_pair();
    let cert = certificate("holder", &pair, "signer", &pair);
    let objects = vec![
        key_object(ObjectKind::SymmetricKey, KeyFormatType::Raw, vec![0, 1, 254, 255]),
        key_object(ObjectKind::PrivateKey, KeyFormatType::PKCS8, pair.private_key_to_pkcs8().unwrap()),
        Object::Certificate { certificate_value: cert.to_der().unwrap(), subject: vec![1, 2], issuer: vec![3] },
    ];
    for object in objects {
        let doc = to_interchange(&object);
        let text = String::from_utf8(doc.clone()).unwrap();
        assert!(text.starts_with("{\n\"kind\":\""));
        assert!(text.ends_with("\"\n}\n"));
        assert_eq!(text.lines().count(), 16);
        let back = from_interchange(&doc).unwrap();
        assert!(back.same(&object));
    }
    assert!(from_interchange(b"{}").is_none());
    assert!(from_interchange(b"").is_none());
}

#[test]
fn interchange_document_of_a_small_key() {
    let mut object = key_object(ObjectKind::SymmetricKey, KeyFormatType::Raw, vec![0, 1, 254, 255]);
    if let Object::SymmetricKey { key_block } = &mut object {
        key_block.cryptographic_algorithm = Some(kms_core::object::CryptographicAlgorithm::AES);
        key_block.cryptographic_length = Some(32);
    }
    let doc = String::from_utf8(to_interchange(&object)).unwrap();
    let expected = "{\n\"kind\":\"SymmetricKey\",\n\"format\":\"Raw\",\n\"algorithm\":\"AES\",\n\"length\":\"32\",\n\
\"material\":\"0001feff\",\n\"subject\":\"\",\n\"issuer\":\"\",\n\"wrapped\":\"false\",\n\"wrapping_key\":\"\",\n\
\"wrapping_algorithm\":\"\",\n\"nonce\":\"\",\n\"tag\":\"\",\n\"encapsulation\":\"\",\n\"original_format\":\"\"\n}\n";
    assert_eq!(doc, expected);
}

#[test]
fn interchange_documents_are_imported_as_what_they_describe() {
    let owner = identity("owner");
    let mut engine = Engine::new(MemoryStore::new());
    let pair = ec_pair();
    let object = key_object(ObjectKind::PrivateKey, KeyFormatType::PKCS8, pair.private_key_to_pkcs8().unwrap());
    let doc = to_interchange(&object);
    let id = engine
        .import_interchange(Some("travelled".to_string()), &doc, false, false, vec!["t".to_string()], no_links(), &owner, 1)
        .unwrap();
    assert_eq!(id, "travelled");
    let (stored, attributes) = engine.get(&id, &owner).unwrap();
    assert_eq!(stored.bytes(), &pair.private_key_to_pkcs8().unwrap());
    assert_eq!(attributes.cryptographic_algorithm, Some(kms_core::object::CryptographicAlgorithm::EC));
    assert_eq!(attributes.cryptographic_length, Some(256));
    assert_eq!(
        engine.import_interchange(None, b"{}", false, false, vec![], no_links(), &owner, 2),
        Err(KmsError::MalformedInput)
    );
    assert_eq!(
        engine.import_interchange(Some("travelled".to_string()), &doc, false, false, vec![], no_links(), &owner, 3),
        Err(KmsError::AlreadyExists)
    );
    let exported = engine.export_plain(&id, KeyFormatType::JsonInterchange, false, &owner).unwrap();
    let back = from_interchange(&exported).unwrap();
    assert_eq!(back.bytes(), &pair.private_key_to_pkcs8().unwrap());
    assert_eq!(engine.store.len(), 1);
}

#[test]
fn certificates_are_held_with_their_names() {
    let owner = identity("owner");
    let mut engine = Engine::new(MemoryStore::new());
    let authority = ec_pair();
    let pair = ec_pair();
    let cert = certificate("holder", &pair, "signer", &authority);
    let id = engine.import(request(None, certificate_object(cert.to_pem().unwrap()), &[], no_links()), &owner, 1).unwrap();
    let (stored, attributes) = engine.get(&id, &owner).unwrap();
    match stored {
        Object::Certificate { certificate_value, subject, issuer } => {
            assert_eq!(certificate_value, cert.to_der().unwrap());
            assert_eq!(subject, cert.subject_name().to_der().unwrap());
            assert_eq!(issuer, cert.issuer_name().to_der().unwrap());
            assert_ne!(subject, issuer);
        }
        _ => panic!("a certificate was stored as a key"),
    }
    assert_eq!(attributes.object_type, ObjectKind::Certificate);
    assert_eq!(attributes.cryptographic_algorithm, None);
    assert_eq!(
        engine.import(request(None, certificate_object(b"neither".to_vec()), &[], no_links()), &owner, 1),
        Err(KmsError::MalformedInput)
    );
    let as_key = key_object(ObjectKind::PrivateKey, KeyFormatType::PEM, cert.to_pem().unwrap());
    assert_eq!(engine.import(request(None, as_key, &[], no_links()), &owner, 1), Err(KmsError::InvalidParameter));
    let wrapped = engine.export_wrapped(&id, KeyFormatType::X509, &id, false, &owner);
    assert_eq!(wrapped, Err(KmsError::InvalidParameter));
}

#[test]
fn what_is_imported_plain_is_consistent() {
    let owner = identity("owner");
    let mut engine = Engine::new(MemoryStore::new());
    let pair = ec_pair();
    let cert = certificate("holder", &pair, "holder", &pair);
    let inputs = vec![
        key_object(ObjectKind::PrivateKey, KeyFormatType::SEC1, pair.ec_key().unwrap().private_key_to_der().unwrap()),
        key_object(ObjectKind::PublicKey, KeyFormatType::PEM, pair.public_key_to_pem().unwrap()),
        certificate_object(cert.to_pem().unwrap()),
    ];
    for input in inputs {
        let id = engine.import(request(None, input, &[], no_links()), &owner, 1).unwrap();
        let (stored, attributes) = engine.get(&id, &owner).unwrap();
        assert_eq!(stored.format(), stored.kind().canonical_format());
        assert!(!stored.ill_encoded());
        assert_eq!(stored.validate(&attributes), Ok(()));
    }
    let mut broken = key_object(ObjectKind::PrivateKey, KeyFormatType::PKCS8, pair.private_key_to_pkcs8().unwrap());
    if let Object::PrivateKey { key_block } = &mut broken {
        key_block.cryptographic_algorithm = Some(kms_core::object::CryptographicAlgorithm::EC);
        key_block.cryptographic_length = Some(256);
    }
    assert_eq!(broken.validate(&broken.attributes(41, no_links())), Ok(()));
    if let Object::PrivateKey { key_block } = &mut broken {
        key_block.key_material[10] ^= 0xff;
    }
    assert!(broken.ill_encoded());
    assert_eq!(
        broken.validate(&broken.attributes(41, no_links())),
        Err(kms_core::error::ObjectError::FormatMismatch)
    );
    let misnamed = Object::Certificate {
        certificate_value: cert.to_der().unwrap(),
        subject: vec![1],
        issuer: cert.issuer_name().to_der().unwrap(),
    };
    assert!(misnamed.ill_encoded());
}

#[test]
fn a_stored_key_is_wrapped_anew() {
    let owner = identity("owner");
    let user = identity("user");
    let mut engine = Engine::new(MemoryStore::new());
    let pair = engine.create_key_pair(kms_core::object::CryptographicAlgorithm::RSA, 2048, &vec![], &owner, 1).unwrap();
    let kek = engine.create(kms_core::object::CryptographicAlgorithm::AES, 256, None, vec![], &owner, 1).unwrap();
    let secret = engine.create(kms_core::object::CryptographicAlgorithm::AES, 256, None, vec!["s".to_string()], &owner, 1).unwrap();
    let plain = engine.export_plain(&secret, KeyFormatType::Raw, false, &owner).unwrap();
    let sealed = engine.encrypt(&secret, b"data", b"", &owner).unwrap();

    assert_eq!(engine.rewrap(&secret, &pair.public_key_id, &user), Err(KmsError::NotFound));
    assert_eq!(engine.rewrap(&pair.public_key_id, &kek, &owner), Err(KmsError::InvalidParameter));
    assert_eq!(engine.rewrap(&secret, &"nowhere".to_string(), &owner), Err(KmsError::NotFound));
    assert_eq!(engine.rewrap(&secret, &pair.public_key_id, &owner), Ok(()));
    let (stored, attributes) = engine.get(&secret, &owner).unwrap();
    assert!(stored.is_wrapped());
    assert_ne!(stored.bytes(), &plain);
    assert_eq!(attributes.cryptographic_length, Some(256));
    let metadata = stored.key_block().unwrap().key_wrapping_data.as_ref().unwrap();
    assert_eq!(metadata.wrapping_key_id, pair.public_key_id);
    assert_eq!(metadata.algorithm, WrappingAlgorithm::RsaOaep);
    assert_eq!(engine.export_plain(&secret, KeyFormatType::Raw, true, &owner), Ok(plain.clone()));
    assert_eq!(engine.decrypt(&secret, &sealed, b"", &owner), Ok(b"data".to_vec()));
    assert_eq!(engine.destroy(&pair.private_key_id, &owner), Ok(0));
    assert_eq!(engine.export_plain(&secret, KeyFormatType::Raw, true, &owner), Err(KmsError::WrongKey));
    let pair = engine.create_key_pair(kms_core::object::CryptographicAlgorithm::RSA, 2048, &vec![], &owner, 1).unwrap();

    let fresh = engine.create(kms_core::object::CryptographicAlgorithm::AES, 256, Some(plain.clone()), vec![], &owner, 1).unwrap();
    assert_eq!(engine.rewrap(&fresh, &pair.private_key_id, &owner), Ok(()));
    assert_eq!(engine.export_plain(&fresh, KeyFormatType::Raw, true, &owner), Ok(plain.clone()));
    assert_eq!(engine.decrypt(&fresh, &sealed, b"", &owner), Ok(b"data".to_vec()));
    assert_eq!(engine.rewrap(&fresh, &kek, &owner), Ok(()));
    let again = engine.get(&fresh, &owner).unwrap().0;
    assert_eq!(
        again.key_block().unwrap().key_wrapping_data.as_ref().unwrap().algorithm,
        WrappingAlgorithm::Aes256Gcm
    );
    assert_eq!(engine.export_plain(&fresh, KeyFormatType::Raw, true, &owner), Ok(plain));
    assert_eq!(engine.locate(&vec!["s".to_string()], &AttributeFilter::any(), &owner).unwrap(), vec![secret]);
}

#[test]
fn linked_objects_must_belong_together() {
    let owner = identity("owner");
    let mut engine = Engine::new(MemoryStore::new());
    let pair = ec_pair();
    let stranger = ec_pair();
    let authority = ec_pair();
    let root = certificate("authority", &authority, "authority", &authority);
    let cert = certificate("holder", &pair, "authority", &authority);
    engine
        .import(
            request(Some("K"), key_object(ObjectKind::PrivateKey, KeyFormatType::PKCS8, pair.private_key_to_pkcs8().unwrap()), &[], no_links()),
            &owner,
            1,
        )
        .unwrap();
    engine
        .import(
            request(Some("S"), key_object(ObjectKind::PrivateKey, KeyFormatType::PKCS8, stranger.private_key_to_pkcs8().unwrap()), &[], no_links()),
            &owner,
            1,
        )
        .unwrap();
    let mut wrong = no_links();
    wrong.private_key_id = Some("S".to_string());
    assert_eq!(
        engine.import(request(None, certificate_object(cert.to_der().unwrap()), &[], wrong), &owner, 2),
        Err(KmsError::InvalidParameter)
    );
    let mut wrong = no_links();
    wrong.private_key_id = Some("S".to_string());
    assert_eq!(
        engine.import(
            request(None, key_object(ObjectKind::PublicKey, KeyFormatType::SPKI, pair.public_key_to_der().unwrap()), &[], wrong),
            &owner,
            2
        ),
        Err(KmsError::InvalidParameter)
    );
    let root_id = engine.import(request(Some("root"), certificate_object(root.to_der().unwrap()), &[], no_links()), &owner, 2).unwrap();
    let mut right = no_links();
    right.private_key_id = Some("K".to_string());
    right.issuer_certificate_id = Some(root_id.clone());
    let cert_id = engine.import(request(Some("leaf"), certificate_object(cert.to_der().unwrap()), &[], right), &owner, 3).unwrap();
    let attributes = engine.get_attributes(&cert_id, &owner).unwrap();
    assert_eq!(attributes.links.issuer_certificate_id, Some(root_id.clone()));
    assert_eq!(engine.get_attributes(&root_id, &owner).unwrap().links.certificate_id, None);
    let mut backwards = no_links();
    backwards.issuer_certificate_id = Some(cert_id.clone());
    assert_eq!(
        engine.import(request(Some("other"), certificate_object(root.to_der().unwrap()), &[], backwards), &owner, 4),
        Err(KmsError::InvalidParameter)
    );
    let mut self_signed = no_links();
    self_signed.issuer_certificate_id = Some(root_id);
    assert!(engine
        .import(request(Some("copy"), certificate_object(root.to_der().unwrap()), &[], self_signed), &owner, 4)
        .is_ok());
    assert_eq!(engine.store.len(), 5);
}
