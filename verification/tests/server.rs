use kms_core::access::IdentityPolicy;
use kms_core::codec::decode_pkcs12;
use kms_core::error::{CodecError, KmsError};
use kms_core::server::config::{
    ClapConfig, DBConfig, DbConfigError, DbParams, HttpConfig, JwtAuthConfig,
};
use kms_core::server::google_cse::{answer, status_code, CseAnswer, CseErrorReply};
use kms_core::server::params::{ConfigFiles, HttpParams, ServerError, ServerParams};
use kms_core::test_server::{
    database_secret, generate_invalid_conf, invalid_conf_for, generate_owner_conf, generate_server_params,
    generate_user_conf, join, ClientConf, Patience, Step,
};
use openssl::asn1::Asn1Time;
use openssl::bn::BigNum;
use openssl::hash::MessageDigest;
use openssl::pkcs12::Pkcs12;
use openssl::pkey::{PKey, Private};
use openssl::rsa::Rsa;
use openssl::x509::{X509NameBuilder, X509};

fn certificate(subject: &str, key: &PKey<Private>) -> X509 {
    let mut name = X509NameBuilder::new().unwrap();
    name.append_entry_by_text("CN", subject).unwrap();
    let name = name.build();
    let mut builder = X509::builder().unwrap();
    builder.set_version(2).unwrap();
    builder.set_serial_number(&BigNum::from_u32(1).unwrap().to_asn1_integer().unwrap()).unwrap();
    builder.set_subject_name(&name).unwrap();
    builder.set_issuer_name(&name).unwrap();
    builder.set_pubkey(key).unwrap();
    builder.set_not_before(&Asn1Time::days_from_now(0).unwrap()).unwrap();
    builder.set_not_after(&Asn1Time::days_from_now(30).unwrap()).unwrap();
    builder.sign(key, MessageDigest::sha256()).unwrap();
    builder.build()
}

fn p12(passphrase: &str) -> Vec<u8> {
    let key = PKey::from_rsa(Rsa::generate(2048).unwrap()).unwrap();
    let cert = certificate("kmserver.acme.com", &key);
    let mut builder = Pkcs12::builder();
    builder.name("server").pkey(&key).cert(&cert);
    builder.build2(passphrase).unwrap().to_der().unwrap()
}

fn authority_pem() -> Vec<u8> {
    let key = PKey::from_rsa(Rsa::generate(2048).unwrap()).unwrap();
    certificate("authority", &key).to_pem().unwrap()
}

fn configuration_error(r: Result<ServerParams, ServerError>) -> String {
    match r {
        Err(ServerError::Configuration(m)) => m,
        Err(ServerError::Certificate(e)) => format!("certificate: {e:?}"),
        Err(ServerError::Database(e)) => format!("database: {e:?}"),
        Ok(_) => "started".to_string(),
    }
}

#[test]
fn default_configuration_starts_in_the_clear() {
    let files = ConfigFiles { https_p12: None, authority_cert: None };
    let params = ServerParams::try_from(ClapConfig::default(), &files).ok().unwrap();
    assert!(!params.http_params.is_running_https());
    assert_eq!(params.kms_url(), "http://0.0.0.0:9998");
    assert_eq!(params.default_username, "admin");
    assert!(!params.force_default_username);
    assert!(params.db_params.is_none());
    assert!(params.client_cert.is_none());
    assert!(params.identity_provider_configurations.is_none());
    let shown = params.fmt();
    assert_eq!(
        shown,
        vec![
            ("kms_url".to_string(), "http://0.0.0.0:9998".to_string()),
            ("db_params".to_string(), "None".to_string()),
            ("clear_db_on_start".to_string(), "false".to_string()),
            ("default_username".to_string(), "admin".to_string()),
            ("force_default_username".to_string(), "false".to_string()),
            ("http_params".to_string(), "http".to_string()),
            ("ms_dke_service_url".to_string(), "None".to_string()),
        ]
    );
}

#[test]
fn https_needs_the_archive_and_its_password() {
    let mut config = ClapConfig::default();
    config.http.port = 443;
    config.http.hostname = "kms.acme.com".to_string();
    config.http.https_p12_file = Some("server.p12".to_string());
    config.http.https_p12_password = Some("password".to_string());
    config.http.authority_cert_file = Some("ca.crt".to_string());
    config.google_cse_kacls_url = Some("https://kms.acme.com/google_cse".to_string());
    config.auth.jwt_issuer_uri = Some(vec!["https://issuer".to_string()]);
    let files = ConfigFiles { https_p12: Some(p12("password")), authority_cert: Some(authority_pem()) };
    let params = ServerParams::try_from(config, &files).ok().unwrap();
    assert!(params.http_params.is_running_https());
    assert_eq!(params.kms_url(), "https://kms.acme.com:443");
    assert!(params.client_cert.is_some());
    let shown = params.fmt();
    let names: Vec<&str> = shown.iter().map(|p| p.0.as_str()).collect();
    assert_eq!(
        names,
        vec![
            "kms_url", "db_params", "clear_db_on_start", "identity_provider_configurations", "verify_cert CN",
            "default_username", "force_default_username", "http_params", "google_cse_kacls_url",
            "ms_dke_service_url"
        ]
    );
    assert_eq!(shown[0].1, "https://kms.acme.com:443");
    assert_eq!(shown[3].1, "https://issuer");
    let subject = params.client_cert.as_ref().unwrap().subject.clone();
    assert_eq!(shown[4].1, subject.iter().map(|b| format!("{:02x}", b)).collect::<String>());
    assert_eq!(shown[7].1, "https");
    assert_eq!(shown[8].1, "https://kms.acme.com/google_cse");
    let copy = params.clone();
    assert!(!copy.http_params.is_running_https());
    assert!(copy.db_params.is_none());
    assert_eq!(copy.hostname, "kms.acme.com");
    assert_eq!(copy.port, 443);
    assert_eq!(copy.client_cert.unwrap().der, params.client_cert.unwrap().der);
    assert_eq!(copy.google_cse_kacls_url, Some("https://kms.acme.com/google_cse".to_string()));

    let mut wrong = ClapConfig::default();
    wrong.http.https_p12_file = Some("server.p12".to_string());
    wrong.http.https_p12_password = Some("other".to_string());
    let r = ServerParams::try_from(wrong, &files);
    assert!(matches!(r, Err(ServerError::Certificate(CodecError::AuthenticationFailed))));
}

#[test]
fn an_authority_certificate_is_for_https_alone() {
    let mut config = ClapConfig::default();
    config.http.authority_cert_file = Some("ca.crt".to_string());
    let files = ConfigFiles { https_p12: None, authority_cert: Some(authority_pem()) };
    assert_eq!(
        configuration_error(ServerParams::try_from(config, &files)),
        "The authority certificate file can only be used when the server is running in HTTPS mode"
    );
    let mut only_file = ClapConfig::default();
    only_file.http.https_p12_file = Some("server.p12".to_string());
    only_file.http.authority_cert_file = Some("ca.crt".to_string());
    assert_eq!(
        configuration_error(ServerParams::try_from(only_file, &files)),
        "The authority certificate file can only be used when the server is running in HTTPS mode"
    );
    let cert = ServerParams::load_cert(&authority_pem()).ok().unwrap();
    assert!(!cert.subject.is_empty());
    assert!(matches!(ServerParams::load_cert(b"garbage"), Err(ServerError::Certificate(CodecError::MalformedInput))));
    let key = PKey::from_rsa(Rsa::generate(2048).unwrap()).unwrap();
    assert!(matches!(
        ServerParams::load_cert(&key.public_key_to_pem().unwrap()),
        Err(ServerError::Certificate(CodecError::MalformedInput))
    ));
    let http = HttpConfig::default();
    assert!(matches!(HttpParams::try_from(&http, &Some(vec![1])), Ok(HttpParams::Http)));
    assert!(decode_pkcs12(&p12("a"), Some("a")).is_ok());
}

#[test]
fn database_configurations() {
    let mut db = DBConfig::default();
    assert!(matches!(db.init(), Ok(None)));
    db.database_type = Some("sqlite".to_string());
    assert!(matches!(db.init(), Ok(Some(DbParams::Sqlite(p))) if p == "./sqlite-data"));
    db.database_type = Some("sqlite-enc".to_string());
    assert!(matches!(db.init(), Ok(Some(DbParams::SqliteEnc(_)))));
    db.database_type = Some("postgresql".to_string());
    assert!(matches!(db.init(), Err(DbConfigError::MissingUrl)));
    db.database_url = Some("postgres://kms".to_string());
    assert!(matches!(db.init(), Ok(Some(DbParams::Postgres(u))) if u == "postgres://kms"));
    db.database_type = Some("mysql".to_string());
    assert!(matches!(db.init(), Ok(Some(DbParams::Mysql(_)))));
    db.database_type = Some("redis-findex".to_string());
    assert!(matches!(db.init(), Err(DbConfigError::MissingPassword)));
    db.redis_master_password = Some("master".to_string());
    assert!(matches!(db.init(), Err(DbConfigError::MissingLabel)));
    db.redis_findex_label = Some("label".to_string());
    assert!(matches!(db.init(), Ok(Some(DbParams::RedisFindex { url, master_password, label }))
        if url == "postgres://kms" && master_password == "master" && label == "label"));
    db.database_type = Some("oracle".to_string());
    assert!(matches!(db.init(), Err(DbConfigError::UnknownType)));
    let mut config = ClapConfig::default();
    config.db = db;
    let files = ConfigFiles { https_p12: None, authority_cert: None };
    assert!(matches!(ServerParams::try_from(config, &files), Err(ServerError::Database(DbConfigError::UnknownType))));
}

#[test]
fn identity_providers_pair_issuers_with_what_stands_beside_them() {
    let auth = JwtAuthConfig {
        jwt_issuer_uri: Some(vec!["i1".to_string(), "i2".to_string(), "i3".to_string()]),
        jwks_uri: Some(vec!["k1".to_string(), "k2".to_string()]),
        jwt_audience: None,
    };
    let idps = auth.extract_idp_configs().unwrap();
    assert_eq!(idps.len(), 3);
    assert_eq!(idps[1].jwt_issuer_uri, "i2");
    assert_eq!(idps[1].jwks_uri, Some("k2".to_string()));
    assert_eq!(idps[2].jwks_uri, None);
    assert_eq!(idps[0].jwt_audience, None);
    assert!(JwtAuthConfig::default().extract_idp_configs().is_none());
}

#[test]
fn the_default_identity_is_forced_before_anything_is_checked() {
    let mut config = ClapConfig::default();
    config.default_username = "tenant".to_string();
    config.force_default_username = true;
    let files = ConfigFiles { https_p12: None, authority_cert: None };
    let params = ServerParams::try_from(config, &files).ok().unwrap();
    let policy = params.identity_policy();
    assert_eq!(policy.resolve(Some("alice")).name(), "tenant");
    assert_eq!(policy.resolve(None).name(), "tenant");
    let free = IdentityPolicy { default_username: "tenant".to_string(), force_default_username: false };
    assert_eq!(free.resolve(Some("alice")).name(), "alice");
    assert_eq!(free.resolve(None).name(), "tenant");
}

#[test]
fn failures_are_answered_with_their_status() {
    let expected = [
        (KmsError::InvalidParameter, 422, 422),
        (KmsError::MalformedInput, 422, 422),
        (KmsError::UnsupportedFormat, 422, 422),
        (KmsError::UnsupportedConversion, 422, 422),
        (KmsError::AlgorithmMismatch, 422, 422),
        (KmsError::UnsupportedAlgorithm, 422, 422),
        (KmsError::WrongKey, 403, 403),
        (KmsError::AuthenticationFailed, 403, 403),
        (KmsError::NotFound, 404, 404),
        (KmsError::Unauthorized, 401, 401),
        (KmsError::AlreadyExists, 409, 500),
        (KmsError::StorageError, 500, 500),
        (KmsError::Internal, 500, 500),
    ];
    for (e, code, status) in expected {
        assert_eq!(status_code(e), code);
        let reply = CseErrorReply::from(e);
        assert_eq!(reply.code, code);
        assert_eq!(reply.message, "A CSE request to the Cosmian KMS failed");
        assert_eq!(reply.details, e.to_string());
        assert_eq!(reply.response_status(), status);
        assert_eq!(e.is_caller_error(), code != 500);
        match answer::<u8>(Err(e)) {
            CseAnswer::Failed { status: s, reply } => {
                assert_eq!(s, status);
                assert_eq!(reply.code, code);
            }
            CseAnswer::Done { .. } => panic!("a failure was answered as done"),
        }
    }
    for code in [400u16, 405] {
        let reply = CseErrorReply { code, message: String::new(), details: String::new() };
        assert_eq!(reply.response_status(), code);
    }
    assert!(matches!(answer(Ok(7u8)), CseAnswer::Done { status: 200, body: 7 }));
    assert_eq!(KmsError::NotFound.to_string(), "not found");
}

#[test]
fn configurations_of_a_server_for_tests() {
    assert_eq!(join("/root", "a/b"), "/root/a/b");
    assert_eq!(join("/root/", "a/b"), "/root/a/b");
    assert_eq!(join("", "a/b"), "a/b");
    let plain = generate_server_params("/kms", 9990, None, false, true);
    assert_eq!(plain.http.port, 9990);
    assert_eq!(plain.db.database_type, Some("sqlite-enc".to_string()));
    assert!(plain.db.clear_database);
    assert_eq!(plain.http.https_p12_file, None);
    assert_eq!(plain.http.authority_cert_file, None);
    let jwt = JwtAuthConfig { jwt_issuer_uri: Some(vec!["i".to_string()]), jwks_uri: None, jwt_audience: None };
    let https = generate_server_params("/kms", 9991, Some(jwt), true, false);
    assert_eq!(https.http.https_p12_file, Some("/kms/certificates/server/kmserver.acme.com.p12".to_string()));
    assert_eq!(https.http.https_p12_password, Some("password".to_string()));
    assert_eq!(https.http.authority_cert_file, None);
    assert_eq!(https.auth.jwt_issuer_uri, Some(vec!["i".to_string()]));
    let both = generate_server_params("/kms", 9992, None, true, true);
    assert_eq!(both.http.authority_cert_file, Some("/kms/certificates/server/ca.crt".to_string()));

    let files = ConfigFiles { https_p12: Some(p12("password")), authority_cert: Some(authority_pem()) };
    let params = ServerParams::try_from(both, &files).ok().unwrap();
    let (path, owner) = generate_owner_conf(&params, "/kms", "token");
    assert_eq!(path, "/tmp/owner_kms_9992.json");
    assert_eq!(owner.kms_server_url, "https://0.0.0.0:9992");
    assert!(owner.accept_invalid_certs);
    assert_eq!(owner.kms_access_token, None);
    assert_eq!(owner.ssl_client_pkcs12_path, Some("/kms/certificates/owner/owner.client.acme.com.p12".to_string()));
    assert_eq!(owner.ssl_client_pkcs12_password, Some("password".to_string()));
    let (path, user) = generate_user_conf(9992, &owner, "/kms");
    assert_eq!(path, "/tmp/user_kms_9992.json");
    assert_eq!(user.kms_server_url, owner.kms_server_url);
    assert_eq!(user.ssl_client_pkcs12_path, Some("/kms/certificates/user/user.client.acme.com.p12".to_string()));

    let files = ConfigFiles { https_p12: None, authority_cert: None };
    let params = ServerParams::try_from(https_without_files(), &files).ok().unwrap();
    let (_, owner) = generate_owner_conf(&params, "/kms", "token");
    assert_eq!(owner.kms_server_url, "http://0.0.0.0:9993");
    assert_eq!(owner.kms_access_token, Some("token".to_string()));
    assert_eq!(owner.ssl_client_pkcs12_path, None);
}

fn https_without_files() -> ClapConfig {
    let jwt = JwtAuthConfig { jwt_issuer_uri: Some(vec!["i".to_string()]), jwks_uri: None, jwt_audience: None };
    generate_server_params("/kms", 9993, Some(jwt), false, false)
}

#[test]
fn an_invalid_configuration_differs_in_its_secret_alone() {
    let mut correct = ClientConf::default();
    correct.kms_database_secret = Some("eyJrZXkiOiJnb29kIn0=".to_string());
    correct.kms_access_token = Some("token".to_string());
    assert_eq!(database_secret(&correct), Some(b"{\"key\":\"good\"}".to_vec()));
    let (path, invalid) = generate_invalid_conf(&correct, b"{\"key\":\"bad\"}");
    assert!(invalid_conf_for(&correct, b"{\"key\":\"bad\"}").is_some());
    assert_eq!(path, "/tmp/invalid_conf.json");
    assert_eq!(invalid.kms_database_secret, Some("eyJrZXkiOiJiYWQifQ==".to_string()));
    assert_eq!(invalid.kms_access_token, correct.kms_access_token);
    assert_eq!(invalid.kms_server_url, correct.kms_server_url);
    assert_eq!(database_secret(&invalid), Some(b"{\"key\":\"bad\"}".to_vec()));
    correct.kms_database_secret = Some("not base64!".to_string());
    assert_eq!(database_secret(&correct), None);
    assert!(invalid_conf_for(&correct, b"{}").is_none());
    correct.kms_database_secret = None;
    assert!(invalid_conf_for(&correct, b"{}").is_none());
}

#[test]
fn the_start_of_a_server_is_awaited_six_times() {
    let mut patience = Patience::new();
    let mut waits = Vec::new();
    loop {
        let (next, step) = patience.next(false);
        patience = next;
        match step {
            Step::Wait(seconds) => waits.push(seconds),
            Step::GiveUp => break,
            Step::Up => panic!("a failure was taken for success"),
        }
    }
    assert_eq!(waits, vec![1, 2, 4, 8, 16]);
    let (same, step) = Patience::new().next(true);
    assert_eq!(step, Step::Up);
    assert_eq!(same, Patience::new());
    let (after_one, _) = Patience::new().next(false);
    assert_eq!(after_one, Patience { timeout: 4, waiting: 2 });
    assert_eq!(after_one.next(true).1, Step::Up);
}
