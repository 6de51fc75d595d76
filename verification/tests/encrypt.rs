use kms_core::access::{Identity, IdentityPolicy};
use kms_core::engine::Engine;
use kms_core::error::KmsError;
use kms_core::export::ExportRequest;
use kms_core::import::ImportRequest;
use kms_core::interchange::from_interchange;
use kms_core::memory_store::MemoryStore;
use kms_core::object::{CryptographicAlgorithm, KeyBlock, KeyFormatType, Links, Object, ObjectKind};
use openssl::asn1::Asn1Time;
use openssl::bn::BigNum;
use openssl::ec::{EcGroup, EcKey};
use openssl::hash::MessageDigest;
use openssl::nid::Nid;
use openssl::pkey::{PKey, Private};
use openssl::rsa::Rsa;
use openssl::x509::{X509NameBuilder, X509};

fn owner() -> Identity {
    let policy = IdentityPolicy { default_username: "admin".to_string(), force_default_username: false };
    policy.resolve(Some("owner"))
}

fn digest_for(signer: &PKey<Private>) -> MessageDigest {
    if signer.id() == openssl::pkey::Id::ED25519 {
        MessageDigest::null()
    } else {
        MessageDigest::sha256()
    }
}

fn certificate(subject: &str, key: &PKey<Private>, issuer: &str, signer: &PKey<Private>) -> X509 {
    let mut subject_name = X509NameBuilder::new().unwrap();
    subject_name.append_entry_by_text("CN", subject).unwrap();
    let subject_name = subject_name.build();
    let mut issuer_name = X509NameBuilder::new().unwrap();
    issuer_name.append_entry_by_text("CN", issuer).unwrap();
    let issuer_name = issuer_name.build();
    let mut builder = X509::builder().unwrap();
    builder.set_version(2).unwrap();
    builder.set_serial_number(&BigNum::from_u32(1).unwrap().to_asn1_integer().unwrap()).unwrap();
    builder.set_subject_name(&subject_name).unwrap();
    builder.set_issuer_name(&issuer_name).unwrap();
    builder.set_pubkey(key).unwrap();
    builder.set_not_before(&Asn1Time::days_from_now(0).unwrap()).unwrap();
    builder.set_not_after(&Asn1Time::days_from_now(30).unwrap()).unwrap();
    builder.sign(signer, digest_for(signer)).unwrap();
    builder.build()
}

fn key_pair(filename: &str) -> PKey<Private> {
    let curve = |nid| PKey::from_ec_key(EcKey::generate(&EcGroup::from_curve_name(nid).unwrap()).unwrap()).unwrap();
    match filename {
        "prime192v1" => curve(Nid::X9_62_PRIME192V1),
        "secp224r1" => curve(Nid::SECP224R1),
        "prime256v1" => curve(Nid::X9_62_PRIME256V1),
        "secp384r1" => curve(Nid::SECP384R1),
        "secp521r1" => curve(Nid::SECP521R1),
        "rsa-2048" => PKey::from_rsa(Rsa::generate(2048).unwrap()).unwrap(),
        "rsa-3072" => PKey::from_rsa(Rsa::generate(3072).unwrap()).unwrap(),
        "rsa-4096" => PKey::from_rsa(Rsa::generate(4096).unwrap()).unwrap(),
        "x25519" => PKey::generate_x25519().unwrap(),
        other => panic!("no key of the name {other}"),
    }
}

fn no_links() -> Links {
    Links { private_key_id: None, public_key_id: None, certificate_id: None, issuer_certificate_id: None }
}

fn import_key(engine: &mut Engine<MemoryStore>, pem: Vec<u8>, id: Option<&str>, tags: &[&str]) -> Result<String, KmsError> {
    let object = Object::PrivateKey {
        key_block: KeyBlock {
            key_format_type: KeyFormatType::PEM,
            key_material: pem,
            cryptographic_algorithm: None,
            cryptographic_length: None,
            key_wrapping_data: None,
        },
    };
    engine.import(
        ImportRequest {
            id: id.map(|s| s.to_string()),
            object,
            unwrap: false,
            replace_existing: true,
            tags: tags.iter().map(|t| t.to_string()).collect(),
            links: no_links(),
        },
        &owner(),
        1,
    )
}

fn import_certificate(
    engine: &mut Engine<MemoryStore>,
    pem: Vec<u8>,
    id: Option<&str>,
    private_key_id: Option<String>,
    issuer_certificate_id: Option<String>,
    tags: &[&str],
) -> Result<String, KmsError> {
    let mut links = no_links();
    links.private_key_id = private_key_id;
    links.issuer_certificate_id = issuer_certificate_id;
    engine.import(
        ImportRequest {
            id: id.map(|s| s.to_string()),
            object: Object::Certificate { certificate_value: pem, subject: vec![], issuer: vec![] },
            unwrap: false,
            replace_existing: true,
            tags: tags.iter().map(|t| t.to_string()).collect(),
            links,
        },
        &owner(),
        2,
    )
}

fn import_wrapped(engine: &mut Engine<MemoryStore>, document: &[u8], id: &str, unwrap: bool) -> Result<String, KmsError> {
    engine.import_interchange(Some(id.to_string()), document, unwrap, true, vec![], no_links(), &owner(), 3)
}

fn test_certificate_import_encrypt(tags: &[&str]) -> Result<(), KmsError> {
    let mut engine = Engine::new(MemoryStore::new());
    let original_content = b"the content of the plain text file".to_vec();

    let root_key = key_pair("prime256v1");
    let subca_key = key_pair("prime256v1");
    let key = key_pair("x25519");
    let root = certificate("root", &root_key, "root", &root_key);
    let subca = certificate("subca", &subca_key, "root", &root_key);
    let cert = certificate("cert", &key, "subca", &subca_key);

    let private_key_id = import_key(&mut engine, key.private_key_to_pem_pkcs8().unwrap(), None, tags)?;
    let root_certificate_id = import_certificate(&mut engine, root.to_pem().unwrap(), None, None, None, tags)?;
    let subca_certificate_id =
        import_certificate(&mut engine, subca.to_pem().unwrap(), None, None, Some(root_certificate_id), tags)?;
    let certificate_id = import_certificate(
        &mut engine,
        cert.to_pem().unwrap(),
        None,
        Some(private_key_id.clone()),
        Some(subca_certificate_id),
        tags,
    )?;

    let sealed = engine.encrypt(&certificate_id, &original_content, b"", &owner())?;
    let recovered_content = engine.decrypt(&private_key_id, &sealed, b"", &owner())?;
    assert_eq!(original_content, recovered_content);
    Ok(())
}

#[test]
fn test_certificate_import_ca_and_encrypt_using_x25519() {
    test_certificate_import_encrypt(&["external_certificate"]).unwrap();
}

fn import_encrypt_decrypt(filename: &str) -> Result<(), KmsError> {
    let mut engine = Engine::new(MemoryStore::new());
    let original_content = b"the content of the plain text file".to_vec();
    let tags = &[filename];
    let key = key_pair(filename);
    let cert = certificate(filename, &key, filename, &key);

    let private_key_id = import_key(&mut engine, key.private_key_to_pem_pkcs8().unwrap(), Some("private-key"), tags)?;
    let certificate_id = import_certificate(
        &mut engine,
        cert.to_pem().unwrap(),
        Some("certificate"),
        Some(private_key_id.clone()),
        None,
        tags,
    )?;

    let sealed = engine.encrypt(&certificate_id, &original_content, b"", &owner())?;

    let private_key_wrapped = engine.export(
        &ExportRequest {
            id: private_key_id.clone(),
            format: KeyFormatType::JsonInterchange,
            wrapping_key_id: Some(certificate_id),
            unwrap: false,
        },
        &owner(),
    )?;

    let unwrapped_uid = import_wrapped(&mut engine, &private_key_wrapped, "unwrapped", true)?;
    let (unwrapped, _) = engine.get(&unwrapped_uid, &owner())?;
    assert!(!unwrapped.is_wrapped());
    assert_eq!(unwrapped.bytes(), &key.private_key_to_pkcs8().unwrap());

    let wrapped_private_key_uid = import_wrapped(&mut engine, &private_key_wrapped, "as-registered", false)?;

    let private_key_wrapped_as_is = engine.export(
        &ExportRequest {
            id: wrapped_private_key_uid,
            format: KeyFormatType::JsonInterchange,
            wrapping_key_id: None,
            unwrap: false,
        },
        &owner(),
    )?;
    assert_eq!(private_key_wrapped_as_is, private_key_wrapped);
    let as_is = from_interchange(&private_key_wrapped_as_is).unwrap();
    assert_eq!(as_is.kind(), ObjectKind::PrivateKey);
    assert!(as_is.is_wrapped());

    let recovered_content = engine.decrypt(&private_key_id, &sealed, b"", &owner())?;
    assert_eq!(original_content, recovered_content);
    Ok(())
}

#[test]
fn test_certificate_encrypt_using_prime192() {
    import_encrypt_decrypt("prime192v1").unwrap();
}

#[test]
fn test_certificate_encrypt_using_prime224() {
    import_encrypt_decrypt("secp224r1").unwrap();
}

#[test]
fn test_certificate_encrypt_using_prime256() {
    import_encrypt_decrypt("prime256v1").unwrap();
}

#[test]
fn test_certificate_encrypt_using_secp384r1() {
    import_encrypt_decrypt("secp384r1").unwrap();
}

#[test]
fn test_certificate_encrypt_using_secp521r1() {
    import_encrypt_decrypt("secp521r1").unwrap();
}

#[test]
fn test_certificate_encrypt_using_rsa() {
    import_encrypt_decrypt("rsa-2048").unwrap();
    import_encrypt_decrypt("rsa-3072").unwrap();
    import_encrypt_decrypt("rsa-4096").unwrap();
}

#[test]
fn signing_keys_do_not_encrypt() {
    let mut engine = Engine::new(MemoryStore::new());
    let pair = engine.create_key_pair(CryptographicAlgorithm::Ed25519, 256, &vec![], &owner(), 1).unwrap();
    assert_eq!(
        engine.encrypt(&pair.public_key_id, b"data", b"", &owner()).err(),
        Some(KmsError::UnsupportedAlgorithm)
    );
    let pair = engine.create_key_pair(CryptographicAlgorithm::X25519, 256, &vec![], &owner(), 1).unwrap();
    let sealed = engine.encrypt(&pair.private_key_id, b"data", b"aad", &owner()).unwrap();
    assert_eq!(engine.decrypt(&pair.public_key_id, &sealed, b"aad", &owner()), Ok(b"data".to_vec()));
    assert_eq!(engine.decrypt(&pair.private_key_id, &sealed, b"aad", &owner()), Ok(b"data".to_vec()));
    assert_eq!(engine.decrypt(&pair.private_key_id, &sealed, b"", &owner()), Err(KmsError::WrongKey));
}
