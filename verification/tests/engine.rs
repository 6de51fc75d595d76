use kms_core::access::{Identity, IdentityPolicy, Right};
use kms_core::engine::Engine;
use kms_core::error::KmsError;
use kms_core::export::ExportRequest;
use kms_core::import::ImportRequest;
use kms_core::memory_store::MemoryStore;
use kms_core::object::{
    CryptographicAlgorithm, KeyBlock, KeyFormatType, Links, Object, ObjectKind,
};
use kms_core::storage::AttributeFilter;

fn identity(name: &str) -> Identity {
    let policy = IdentityPolicy { default_username: "admin".to_string(), force_default_username: false };
    policy.resolve(Some(name))
}

fn engine() -> Engine<MemoryStore> {
    Engine::new(MemoryStore::new())
}

fn symmetric(bytes: &[u8]) -> Object {
    Object::SymmetricKey {
        key_block: KeyBlock {
            key_format_type: KeyFormatType::Raw,
            key_material: bytes.to_vec(),
            cryptographic_algorithm: Some(CryptographicAlgorithm::AES),
            cryptographic_length: None,
            key_wrapping_data: None,
        },
    }
}

fn request(id: Option<&str>, object: Object, replace_existing: bool, tags: &[&str]) -> ImportRequest {
    ImportRequest {
        id: id.map(|s| s.to_string()),
        object,
        unwrap: false,
        replace_existing,
        tags: tags.iter().map(|t| t.to_string()).collect(),
        links: Links { private_key_id: None, public_key_id: None, certificate_id: None, issuer_certificate_id: None },
    }
}

fn create_keys(engine: &mut Engine<MemoryStore>, caller: &Identity) -> Result<(), KmsError> {
    let vol1 = symmetric(&[1, 2, 3, 4]);
    let _vol1_id = engine.import(request(Some("vol1"), vol1, true, &["disk-encryption", "vol1"]), caller, 1)?;
    let vol2 = symmetric(&[4, 5, 6, 7]);
    let _vol2_id = engine.import(request(Some("vol2"), vol2, true, &["disk-encryption", "vol2"]), caller, 2)?;
    Ok(())
}

#[test]
fn test_kms_client() {
    let owner = identity("owner");
    let mut engine = engine();
    create_keys(&mut engine, &owner).unwrap();

    let keys = engine
        .locate(&vec!["disk-encryption".to_string()], &AttributeFilter::any(), &owner)
        .unwrap();
    assert_eq!(keys.len(), 2);
    let mut labels = keys
        .iter()
        .flat_map(|k| engine.get_tags(k, &owner).unwrap())
        .filter(|t| t != "disk-encryption")
        .collect::<Vec<String>>();
    labels.sort();
    assert_eq!(labels, vec!["vol1".to_string(), "vol2".to_string()]);
    for id in &keys {
        let bytes = engine.export_plain(id, KeyFormatType::Raw, false, &owner).unwrap();
        assert_eq!(bytes.len(), 4);
    }
}

#[test]
fn create_locate_destroy_scenario() {
    let owner = identity("owner");
    let mut engine = engine();
    let id = engine
        .create(CryptographicAlgorithm::AES, 256, None, vec!["disk-encryption".to_string()], &owner, 7)
        .unwrap();
    let found = engine
        .locate(&vec!["disk-encryption".to_string()], &AttributeFilter::any(), &owner)
        .unwrap();
    assert_eq!(found, vec![id.clone()]);
    let (object, attributes) = engine.get(&id, &owner).unwrap();
    assert_eq!(object.kind(), ObjectKind::SymmetricKey);
    assert_eq!(object.bytes().len(), 32);
    assert_eq!(attributes.cryptographic_length, Some(256));
    assert_eq!(engine.destroy(&id, &owner), Ok(0));
    assert_eq!(engine.get(&id, &owner).err(), Some(KmsError::NotFound));
    let found = engine
        .locate(&vec!["disk-encryption".to_string()], &AttributeFilter::any(), &owner)
        .unwrap();
    assert!(found.is_empty());
}

#[test]
fn create_rejects_lengths_the_algorithm_does_not_admit() {
    let owner = identity("owner");
    let mut engine = engine();
    for bits in [0usize, 64, 127, 200, 257, 512] {
        assert_eq!(
            engine.create(CryptographicAlgorithm::AES, bits, None, vec![], &owner, 0),
            Err(KmsError::InvalidParameter)
        );
    }
    for bits in [128usize, 192, 256] {
        let id = engine.create(CryptographicAlgorithm::AES, bits, None, vec![], &owner, 0).unwrap();
        let (object, _) = engine.get(&id, &owner).unwrap();
        assert_eq!(object.bytes().len() * 8, bits);
    }
    assert_eq!(
        engine.create(CryptographicAlgorithm::RSA, 2048, None, vec![], &owner, 0),
        Err(KmsError::UnsupportedAlgorithm)
    );
    assert_eq!(
        engine.create(CryptographicAlgorithm::AES, 128, Some(vec![0; 17]), vec![], &owner, 0),
        Err(KmsError::InvalidParameter)
    );
    let id = engine
        .create(CryptographicAlgorithm::AES, 128, Some((0..16).collect()), vec![], &owner, 0)
        .unwrap();
    assert_eq!(engine.get(&id, &owner).unwrap().0.bytes(), &(0..16).collect::<Vec<u8>>());
}

#[test]
fn identifiers_are_assigned_in_order_and_skip_taken_ones() {
    let owner = identity("owner");
    let mut engine = engine();
    engine.import(request(Some("1"), symmetric(&[9]), false, &[]), &owner, 0).unwrap();
    let a = engine.create(CryptographicAlgorithm::AES, 128, None, vec![], &owner, 0).unwrap();
    let b = engine.create(CryptographicAlgorithm::AES, 128, None, vec![], &owner, 0).unwrap();
    assert_eq!(a, "0");
    assert_eq!(b, "2");
}

#[test]
fn id_collision_fails_unless_replacing() {
    let owner = identity("owner");
    let mut engine = engine();
    engine.import(request(Some("k"), symmetric(&[1, 1]), false, &["old"]), &owner, 0).unwrap();
    assert_eq!(
        engine.import(request(Some("k"), symmetric(&[2, 2]), false, &["new"]), &owner, 1),
        Err(KmsError::AlreadyExists)
    );
    assert_eq!(engine.get(&"k".to_string(), &owner).unwrap().0.bytes(), &vec![1, 1]);
    assert_eq!(
        engine.import(request(Some("k"), symmetric(&[2, 2]), true, &["new"]), &owner, 2),
        Ok("k".to_string())
    );
    assert_eq!(engine.get(&"k".to_string(), &owner).unwrap().0.bytes(), &vec![2, 2]);
    assert!(engine.locate(&vec!["old".to_string()], &AttributeFilter::any(), &owner).unwrap().is_empty());
    assert_eq!(
        engine.locate(&vec!["new".to_string()], &AttributeFilter::any(), &owner).unwrap(),
        vec!["k".to_string()]
    );
}

#[test]
fn strangers_learn_nothing_and_grantees_only_what_was_granted() {
    let owner = identity("owner");
    let user = identity("user");
    let mut engine = engine();
    let id = engine.create(CryptographicAlgorithm::AES, 256, None, vec![], &owner, 0).unwrap();
    assert_eq!(engine.get(&id, &user).err(), Some(KmsError::NotFound));
    assert_eq!(engine.export_plain(&id, KeyFormatType::Raw, false, &user).err(), Some(KmsError::NotFound));
    assert_eq!(engine.destroy(&id, &user), Err(KmsError::NotFound));

    engine.grant_access(&id, &owner, &"user".to_string(), Right::Get).unwrap();
    assert!(engine.get(&id, &user).is_ok());
    assert_eq!(
        engine.export_plain(&id, KeyFormatType::Raw, false, &user).err(),
        Some(KmsError::Unauthorized)
    );
    assert_eq!(engine.destroy(&id, &user), Err(KmsError::Unauthorized));
    assert_eq!(
        engine.grant_access(&id, &user, &"user".to_string(), Right::Export),
        Err(KmsError::Unauthorized)
    );

    engine.grant_access(&id, &owner, &"user".to_string(), Right::Export).unwrap();
    assert!(engine.export_plain(&id, KeyFormatType::Raw, false, &user).is_ok());
    engine.revoke_access(&id, &owner, &"user".to_string(), Right::Export).unwrap();
    assert_eq!(
        engine.export_plain(&id, KeyFormatType::Raw, false, &user).err(),
        Some(KmsError::Unauthorized)
    );
    assert!(engine.export_plain(&id, KeyFormatType::Raw, false, &owner).is_ok());
}

#[test]
fn locate_sees_only_what_the_caller_may_get() {
    let owner = identity("owner");
    let user = identity("user");
    let mut engine = engine();
    create_keys(&mut engine, &owner).unwrap();
    let tags = vec!["disk-encryption".to_string()];
    assert!(engine.locate(&tags, &AttributeFilter::any(), &user).unwrap().is_empty());
    engine.grant_access(&"vol2".to_string(), &owner, &"user".to_string(), Right::Get).unwrap();
    assert_eq!(engine.locate(&tags, &AttributeFilter::any(), &user).unwrap(), vec!["vol2".to_string()]);
    let both = vec!["disk-encryption".to_string(), "vol1".to_string()];
    assert_eq!(engine.locate(&both, &AttributeFilter::any(), &owner).unwrap(), vec!["vol1".to_string()]);
    let mut filter = AttributeFilter::any();
    filter.min_length = Some(33);
    assert!(engine.locate(&tags, &filter, &owner).unwrap().is_empty());
    filter.min_length = Some(32);
    filter.max_length = Some(32);
    filter.object_type = Some(ObjectKind::SymmetricKey);
    filter.cryptographic_algorithm = Some(CryptographicAlgorithm::AES);
    assert_eq!(engine.locate(&tags, &filter, &owner).unwrap().len(), 2);
}

#[test]
fn revoked_objects_answer_only_to_their_destruction() {
    let owner = identity("owner");
    let mut engine = engine();
    let id = engine.create(CryptographicAlgorithm::AES, 256, None, vec!["t".to_string()], &owner, 0).unwrap();
    assert_eq!(engine.revoke(&id, &owner, 5), Ok(()));
    assert_eq!(engine.get(&id, &owner).err(), Some(KmsError::NotFound));
    assert!(engine.locate(&vec!["t".to_string()], &AttributeFilter::any(), &owner).unwrap().is_empty());
    assert_eq!(engine.revoke(&id, &owner, 6), Err(KmsError::NotFound));
    assert_eq!(
        engine.import(request(Some(&id), symmetric(&[1]), false, &[]), &owner, 7),
        Err(KmsError::AlreadyExists)
    );
    assert_eq!(engine.destroy(&id, &owner), Ok(0));
}

#[test]
fn encrypt_then_decrypt_gives_the_plaintext_back() {
    let owner = identity("owner");
    let user = identity("user");
    let mut engine = engine();
    let id = engine.create(CryptographicAlgorithm::AES, 256, None, vec![], &owner, 0).unwrap();
    let other = engine.create(CryptographicAlgorithm::AES, 256, None, vec![], &owner, 0).unwrap();
    let sealed = engine.encrypt(&id, b"attack at dawn", b"header", &owner).unwrap();
    assert_eq!(sealed.nonce.len(), 12);
    assert_eq!(sealed.tag.len(), 16);
    assert_ne!(sealed.data, b"attack at dawn".to_vec());
    assert_eq!(engine.decrypt(&id, &sealed, b"header", &owner), Ok(b"attack at dawn".to_vec()));
    assert_eq!(engine.decrypt(&id, &sealed, b"other", &owner), Err(KmsError::WrongKey));
    assert_eq!(engine.decrypt(&other, &sealed, b"header", &owner), Err(KmsError::WrongKey));
    assert_eq!(engine.encrypt(&id, b"x", b"", &user).err(), Some(KmsError::NotFound));
    engine.grant_access(&id, &owner, &"user".to_string(), Right::Encrypt).unwrap();
    let by_user = engine.encrypt(&id, b"x", b"", &user).unwrap();
    assert_eq!(engine.decrypt(&id, &by_user, b"", &user), Err(KmsError::Unauthorized));
    assert_eq!(engine.decrypt(&id, &by_user, b"", &owner), Ok(b"x".to_vec()));
    let short = engine.create(CryptographicAlgorithm::AES, 128, None, vec![], &owner, 0).unwrap();
    assert_eq!(engine.encrypt(&short, b"x", b"", &owner).err(), Some(KmsError::UnsupportedAlgorithm));
}

#[test]
fn export_of_a_symmetric_key_as_a_public_key_is_refused() {
    let owner = identity("owner");
    let mut engine = engine();
    let id = engine.create(CryptographicAlgorithm::AES, 256, None, vec![], &owner, 0).unwrap();
    let plain = ExportRequest { id: id.clone(), format: KeyFormatType::SPKI, wrapping_key_id: None, unwrap: false };
    assert_eq!(engine.export(&plain, &owner), Err(KmsError::UnsupportedConversion));
    let pem = ExportRequest { id, format: KeyFormatType::PEM, wrapping_key_id: None, unwrap: false };
    assert_eq!(engine.export(&pem, &owner), Err(KmsError::UnsupportedConversion));
}

#[test]
fn key_pairs_are_created_linked() {
    let owner = identity("owner");
    let mut engine = engine();
    let tags = vec!["pair".to_string()];
    let cases = [
        (CryptographicAlgorithm::RSA, 2048usize, 2048usize),
        (CryptographicAlgorithm::EC, 224, 224),
        (CryptographicAlgorithm::EC, 256, 256),
        (CryptographicAlgorithm::EC, 384, 384),
        (CryptographicAlgorithm::EC, 521, 521),
        (CryptographicAlgorithm::Ed25519, 256, 256),
        (CryptographicAlgorithm::X25519, 256, 253),
        (CryptographicAlgorithm::X25519, 253, 253),
    ];
    for (algorithm, length, stored) in cases {
        let ids = engine.create_key_pair(algorithm, length, &tags, &owner, 1).unwrap();
        let private = engine.get_attributes(&ids.private_key_id, &owner).unwrap();
        let public = engine.get_attributes(&ids.public_key_id, &owner).unwrap();
        assert_eq!(private.object_type, ObjectKind::PrivateKey);
        assert_eq!(public.object_type, ObjectKind::PublicKey);
        assert_eq!(private.cryptographic_algorithm, Some(algorithm));
        assert_eq!(public.cryptographic_algorithm, Some(algorithm));
        assert_eq!(private.cryptographic_length, Some(stored));
        assert_eq!(public.cryptographic_length, Some(stored));
        assert_eq!(private.links.public_key_id, Some(ids.public_key_id.clone()));
        assert_eq!(public.links.private_key_id, Some(ids.private_key_id.clone()));
        let (key, attributes) = engine.get(&ids.private_key_id, &owner).unwrap();
        assert_eq!(key.validate(&attributes), Ok(()));
    }
    assert_eq!(engine.store.len(), 16);
    assert_eq!(
        engine.create_key_pair(CryptographicAlgorithm::AES, 256, &tags, &owner, 1).err(),
        Some(KmsError::UnsupportedAlgorithm)
    );
    assert_eq!(
        engine.create_key_pair(CryptographicAlgorithm::MlKem, 768, &tags, &owner, 1).err(),
        Some(KmsError::UnsupportedAlgorithm)
    );
    assert_eq!(
        engine.create_key_pair(CryptographicAlgorithm::RSA, 1024, &tags, &owner, 1).err(),
        Some(KmsError::InvalidParameter)
    );
    assert_eq!(engine.store.len(), 16);
    assert_eq!(engine.locate(&tags, &AttributeFilter::any(), &owner).unwrap().len(), 16);
}

#[test]
fn only_who_may_destroy_an_object_replaces_it() {
    let owner = identity("owner");
    let other = identity("other");
    let mut engine = engine();
    engine.import(request(Some("k"), symmetric(&[1, 2, 3, 4]), false, &["a"]), &owner, 1).unwrap();
    assert_eq!(
        engine.import(request(Some("k"), symmetric(&[9, 9, 9, 9]), true, &["b"]), &other, 2).err(),
        Some(KmsError::NotFound)
    );
    engine.grant_access(&"k".to_string(), &owner, &"other".to_string(), kms_core::access::Right::Get).unwrap();
    assert_eq!(
        engine.import(request(Some("k"), symmetric(&[9, 9, 9, 9]), true, &["b"]), &other, 3).err(),
        Some(KmsError::Unauthorized)
    );
    assert_eq!(engine.get_tags(&"k".to_string(), &owner).unwrap(), vec!["a".to_string()]);
    assert_eq!(engine.get_tags(&"k".to_string(), &other).unwrap(), vec!["a".to_string()]);
    assert_eq!(engine.get_tags(&"missing".to_string(), &owner).err(), Some(KmsError::NotFound));
    engine.import(request(Some("k"), symmetric(&[9, 9, 9, 9]), true, &["b"]), &owner, 4).unwrap();
    assert_eq!(engine.get_tags(&"k".to_string(), &owner).unwrap(), vec!["b".to_string()]);
}

#[test]
fn keys_that_fit_together_are_stored_as_a_pair() {
    let owner = identity("owner");
    let mut engine = engine();
    let a = openssl::pkey::PKey::from_rsa(openssl::rsa::Rsa::generate(2048).unwrap()).unwrap();
    let b = openssl::pkey::PKey::from_rsa(openssl::rsa::Rsa::generate(2048).unwrap()).unwrap();
    let tags = vec!["pair".to_string()];
    let ids = engine
        .store_pair(
            a.private_key_to_pkcs8().unwrap(),
            a.public_key_to_der().unwrap(),
            CryptographicAlgorithm::RSA,
            2048,
            &tags,
            &owner,
            1,
        )
        .unwrap();
    let (private, attributes) = engine.get(&ids.private_key_id, &owner).unwrap();
    assert_eq!(private.bytes(), &a.private_key_to_pkcs8().unwrap());
    assert_eq!(attributes.links.public_key_id, Some(ids.public_key_id.clone()));
    let (public, attributes) = engine.get(&ids.public_key_id, &owner).unwrap();
    assert_eq!(public.bytes(), &a.public_key_to_der().unwrap());
    assert_eq!(attributes.links.private_key_id, Some(ids.private_key_id.clone()));
    assert_eq!(engine.store.len(), 2);
    assert_eq!(
        engine
            .store_pair(
                a.private_key_to_pkcs8().unwrap(),
                b.public_key_to_der().unwrap(),
                CryptographicAlgorithm::RSA,
                2048,
                &tags,
                &owner,
                2,
            )
            .err(),
        Some(KmsError::Internal)
    );
    assert_eq!(
        engine
            .store_pair(
                a.private_key_to_pkcs8().unwrap(),
                a.public_key_to_der().unwrap(),
                CryptographicAlgorithm::RSA,
                3072,
                &tags,
                &owner,
                3,
            )
            .err(),
        Some(KmsError::Internal)
    );
    assert_eq!(
        engine
            .store_pair(
                a.private_key_to_pkcs8().unwrap(),
                a.public_key_to_der().unwrap(),
                CryptographicAlgorithm::EC,
                256,
                &tags,
                &owner,
                4,
            )
            .err(),
        Some(KmsError::Internal)
    );
    assert_eq!(
        engine.store_pair(vec![], vec![], CryptographicAlgorithm::RSA, 1024, &tags, &owner, 5).err(),
        Some(KmsError::InvalidParameter)
    );
    assert_eq!(
        engine.store_pair(vec![], vec![], CryptographicAlgorithm::AES, 256, &tags, &owner, 6).err(),
        Some(KmsError::UnsupportedAlgorithm)
    );
    assert_eq!(engine.store.len(), 2);
}
