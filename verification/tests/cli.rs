use kms_core::access::{Identity, IdentityPolicy};
use kms_core::cli::error::{CliError, GoogleApiError};
use kms_core::cli::gmail_client::{
    is_success, ErrorContent, GmailClient, GmailClientBuilder, Method, RequestError, ResponseBody,
    ServiceAccount,
};
use kms_core::cli::keypairs::{
    key_pair_info, EmailFile, InputFile, InsertKeypairsAction, KeyFile, Upload,
};
use kms_core::cli::symmetric::{select_algorithm, CreateKeyAction, SymmetricAlgorithm};
use kms_core::engine::Engine;
use kms_core::error::KmsError;
use kms_core::memory_store::MemoryStore;
use kms_core::object::{CryptographicAlgorithm, KeyFormatType};
use kms_core::storage::AttributeFilter;

fn identity(name: &str) -> Identity {
    let policy = IdentityPolicy { default_username: "admin".to_string(), force_default_username: false };
    policy.resolve(Some(name))
}

fn account() -> ServiceAccount {
    ServiceAccount {
        client_email: "service@project.example.com".to_string(),
        private_key_id: "1".to_string(),
        private_key: "key".to_string(),
        token_uri: "https://oauth2.googleapis.com/token".to_string(),
    }
}

fn message(e: &CliError) -> String {
    e.to_string()
}

#[test]
fn builder_hands_on_what_was_loaded() {
    let builder = GmailClientBuilder::new(Ok(account()), "john@example.com".to_string()).ok().unwrap();
    assert_eq!(builder.user_id, "john@example.com");
    assert_eq!(builder.service_account.client_email, "service@project.example.com");
    let client = builder.build(Ok("token".to_string())).ok().unwrap();
    assert_eq!(client.token, "token");
    assert_eq!(client.base_url, "https://gmail.googleapis.com/gmail/v1/users/john@example.com");

    let failed = GmailClientBuilder::new(Err(CliError::Default("no such file".to_string())), "john".to_string());
    assert_eq!(message(&failed.err().unwrap()), "no such file");
    let builder = GmailClientBuilder::new(Ok(account()), "john".to_string()).ok().unwrap();
    let failed = builder.build(Err(CliError::Default("no token".to_string())));
    assert_eq!(message(&failed.err().unwrap()), "no token");
    let failed = GmailClient::new(
        Err(CliError::Default("no such file".to_string())),
        "john",
        Err(CliError::Default("no token".to_string())),
    );
    assert_eq!(message(&failed.err().unwrap()), "no such file");
}

#[test]
fn requests_carry_the_token_and_the_content() {
    let client = GmailClient::new(Ok(account()), "john@example.com", Ok("token".to_string())).ok().unwrap();
    let get = client.get("/settings/cse/keypairs");
    assert_eq!(get.method, Method::Get);
    assert_eq!(get.url, "https://gmail.googleapis.com/gmail/v1/users/john@example.com/settings/cse/keypairs");
    assert_eq!(get.bearer_token, "token");
    assert_eq!(get.content_type, None);
    assert_eq!(get.content_length, None);
    assert_eq!(get.body, None);
    let delete = client.delete("/x");
    assert_eq!(delete.method, Method::Delete);
    assert_eq!(delete.body, None);
    let post = client.post("/x", "{\"é\":1}".to_string());
    assert_eq!(post.method, Method::Post);
    assert_eq!(post.content_type, Some("application/json".to_string()));
    assert_eq!(post.content_length, Some(8));
    assert_eq!(post.body, Some("{\"é\":1}".to_string()));
    let patch = client.patch("/x", String::new());
    assert_eq!(patch.method, Method::Patch);
    assert_eq!(patch.content_length, Some(0));
}

#[test]
fn answers_of_success_are_shown_and_failures_become_errors() {
    for status in [200u16, 204, 299] {
        assert!(is_success(status));
        assert_eq!(
            GmailClient::handle_response(status, Ok(ResponseBody::Text("done".to_string()))).ok(),
            Some("done".to_string())
        );
    }
    for status in [100u16, 199, 300, 404, 500] {
        assert!(!is_success(status));
        let failure = RequestError { error: ErrorContent { message: "quota".to_string() } };
        let e = GmailClient::handle_response(status, Ok(ResponseBody::Failure(failure))).err().unwrap();
        assert!(matches!(&e, CliError::GmailApiError(m) if m == "quota"));
        assert_eq!(message(&e), "Error interacting with Gmail API: quota");
    }
    let e = GmailClient::handle_response(200, Err(GoogleApiError::Reqwest("timed out".to_string()))).err().unwrap();
    assert_eq!(message(&e), "REQWEST error: timed out");
    assert!(GmailClient::handle_response(404, Ok(ResponseBody::Text("x".to_string()))).is_err());
}

fn file(path: &str, name: Option<&str>, extension: Option<&str>, is_file: bool) -> InputFile {
    InputFile {
        path: path.to_string(),
        file_name: name.map(|s| s.to_string()),
        extension: extension.map(|s| s.to_string()),
        is_file,
    }
}

fn pairs(list: &[EmailFile]) -> Vec<(String, String)> {
    list.iter().map(|e| (e.email.clone(), e.path.clone())).collect()
}

#[test]
fn input_files_are_the_files_with_the_extension() {
    let entries = vec![
        file("d/a@x.org.wrap", Some("a@x.org.wrap"), Some("wrap"), true),
        file("d/b.wrap", Some("b.wrap"), Some("wrap"), false),
        file("d/c.p7pem", Some("c.p7pem"), Some("p7pem"), true),
        file("d/none", Some("none"), None, true),
        file("d/e.wrap", Some("e.wrap"), Some("wrap"), true),
    ];
    let found = InsertKeypairsAction::get_input_files(&entries, "wrap");
    let paths: Vec<String> = found.iter().map(|f| f.path.clone()).collect();
    assert_eq!(paths, vec!["d/a@x.org.wrap".to_string(), "d/e.wrap".to_string()]);
    assert!(InsertKeypairsAction::get_input_files(&entries, "pem").is_empty());
}

#[test]
fn emails_are_what_precedes_the_extension() {
    let files = vec![
        file("d/a@x.org.wrap", Some("a@x.org.wrap"), Some("wrap"), true),
        file("d/noext", Some("noext"), None, true),
        file("d/b@x.org.p7pem", Some("b@x.org.p7pem"), Some("p7pem"), true),
        file("d/.wrap", Some(".wrap"), None, true),
        file("e/a@x.org.wrap", Some("a@x.org.wrap"), Some("wrap"), true),
        file("d/c.wrap.", Some("c.wrap."), Some(""), true),
    ];
    let map = InsertKeypairsAction::get_email_to_file(&files, "wrap").ok().unwrap();
    assert_eq!(
        pairs(&map),
        vec![("a@x.org".to_string(), "e/a@x.org.wrap".to_string()), (String::new(), "d/.wrap".to_string())]
    );
    assert_eq!(InsertKeypairsAction::file_of(&map, &"a@x.org".to_string()), Some("e/a@x.org.wrap".to_string()));
    assert_eq!(InsertKeypairsAction::file_of(&map, &"b@x.org".to_string()), None);

    let nameless = vec![
        file("d/a@x.org.wrap", Some("a@x.org.wrap"), Some("wrap"), true),
        file("d/..", None, None, false),
        file("/", None, None, false),
    ];
    let e = InsertKeypairsAction::get_email_to_file(&nameless, "wrap").err().unwrap();
    assert!(matches!(&e, CliError::Conversion(m) if m == "cannot get file name from input file \"d/..\""));
    let quoted = vec![file("d/a\"b\\..", None, None, false)];
    let e = InsertKeypairsAction::get_email_to_file(&quoted, "wrap").err().unwrap();
    assert!(matches!(&e, CliError::Conversion(m) if m == "cannot get file name from input file \"d/a\\\"b\\\\..\""));
}

#[test]
fn users_without_a_certificate_are_passed_over() {
    let keys = vec![
        EmailFile { email: "a@x.org".to_string(), path: "k/a@x.org.wrap".to_string() },
        EmailFile { email: "b@x.org".to_string(), path: "k/b@x.org.wrap".to_string() },
    ];
    let certs = vec![EmailFile { email: "b@x.org".to_string(), path: "c/b@x.org.p7pem".to_string() }];
    let plan = InsertKeypairsAction::uploads(&keys, &certs);
    assert_eq!(plan.len(), 2);
    assert!(matches!(&plan[0], Upload::Skip { email } if email == "a@x.org"));
    assert!(matches!(&plan[1], Upload::Post { email, key_file, cert_file }
        if email == "b@x.org" && key_file == "k/b@x.org.wrap" && cert_file == "c/b@x.org.p7pem"));
    let info = key_pair_info(
        KeyFile { kacls_url: "https://kms/google_cse".to_string(), wrapped_private_key: "d3JhcHBlZA==".to_string() },
        "-----BEGIN PKCS7-----".to_string(),
    );
    assert_eq!(info.pkcs7, "-----BEGIN PKCS7-----");
    assert_eq!(info.private_key_metadata.len(), 1);
    assert_eq!(info.private_key_metadata[0].kacls_key_metadata.kacls_uri, "https://kms/google_cse");
    assert_eq!(info.private_key_metadata[0].kacls_key_metadata.kacls_data, "d3JhcHBlZA==");
}

fn action(bits: Option<usize>, b64: Option<&str>, algorithm: SymmetricAlgorithm) -> CreateKeyAction {
    CreateKeyAction {
        number_of_bits: bits,
        wrap_key_b64: b64.map(|s| s.to_string()),
        algorithm,
        tags: vec!["tag".to_string()],
    }
}

#[test]
fn the_request_of_the_create_action() {
    let q = action(None, None, SymmetricAlgorithm::Aes).request().ok().unwrap();
    assert_eq!((q.algorithm, q.number_of_bits, q.key_bytes), (CryptographicAlgorithm::AES, 256, None));
    let q = action(Some(128), None, SymmetricAlgorithm::Chacha20).request().ok().unwrap();
    assert_eq!((q.algorithm, q.number_of_bits), (CryptographicAlgorithm::ChaCha20, 128));
    let q = action(Some(128), Some("AQIDBA=="), SymmetricAlgorithm::Aes).request().ok().unwrap();
    assert_eq!(
        (q.algorithm, q.number_of_bits, q.key_bytes),
        (CryptographicAlgorithm::AES, 32, Some(vec![1, 2, 3, 4]))
    );
    let e = action(None, Some("not base64!"), SymmetricAlgorithm::Aes).request().err().unwrap();
    assert_eq!(message(&e), "failed decoding the wrap key");

    for (bits, algorithm) in [
        (224, CryptographicAlgorithm::SHA3224),
        (256, CryptographicAlgorithm::SHA3256),
        (384, CryptographicAlgorithm::SHA3384),
        (512, CryptographicAlgorithm::SHA3512),
    ] {
        assert_eq!(select_algorithm(SymmetricAlgorithm::Sha3, bits).ok(), Some(algorithm));
    }
    assert_eq!(select_algorithm(SymmetricAlgorithm::Shake, 128).ok(), Some(CryptographicAlgorithm::SHAKE128));
    assert_eq!(select_algorithm(SymmetricAlgorithm::Shake, 256).ok(), Some(CryptographicAlgorithm::SHAKE256));
    let e = select_algorithm(SymmetricAlgorithm::Sha3, 128).err().unwrap();
    assert_eq!(message(&e), "invalid number of bits for sha3 128");
    let e = action(Some(512), None, SymmetricAlgorithm::Shake).request().err().unwrap();
    assert_eq!(message(&e), "invalid number of bits for shake 512");
    let e = action(None, Some("AQIDBA=="), SymmetricAlgorithm::Sha3).request().err().unwrap();
    assert_eq!(message(&e), "invalid number of bits for sha3 32");
}

#[test]
fn the_create_action_on_an_engine() {
    let owner = identity("owner");
    let mut engine = Engine::new(MemoryStore::new());
    let made = action(None, None, SymmetricAlgorithm::Aes).run(&mut engine, &owner, 1).ok().unwrap();
    let given = action(None, Some("AQIDBA=="), SymmetricAlgorithm::Aes).run(&mut engine, &owner, 2).ok().unwrap();
    assert_ne!(made, given);
    assert_eq!(engine.export_plain(&made, KeyFormatType::Raw, false, &owner).unwrap().len(), 32);
    assert_eq!(engine.export_plain(&given, KeyFormatType::Raw, false, &owner), Ok(vec![1, 2, 3, 4]));
    let mut found = engine.locate(&vec!["tag".to_string()], &AttributeFilter::any(), &owner).unwrap();
    found.sort();
    let mut expected = vec![made, given];
    expected.sort();
    assert_eq!(found, expected);
    let e = action(Some(100), None, SymmetricAlgorithm::Aes).run(&mut engine, &owner, 3).err().unwrap();
    assert!(matches!(e, CliError::Kms(KmsError::InvalidParameter)));
    assert_eq!(engine.store.len(), 2);
}
