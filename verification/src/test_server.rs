//! What it takes to run a server for tests beside its clients: the
//! configuration of the server, the configurations of an owner and a user
//! of its objects, and the patience with which its start is awaited.

use vstd::prelude::*;
use crate::bytes::ascii_text;
use crate::crypto::{
    MAX_INPUT,
    base64_decode,
    base64_decoded,
    base64_encode,
    base64_of,
    is_base64_byte,
};
use crate::decimal::{
    digits,
    to_decimal,
};
use crate::object::{
    clone_opt_string,
    opt_string_view,
};
use crate::server::config::{
    ClapConfig,
    DBConfig,
    HttpConfig,
    JwtAuthConfig,
};
use crate::server::params::ServerParams;
use vstd::utf8::encode_utf8;

verus! {

/// How a client reaches the server.
pub struct ClientConf {
    pub kms_server_url: String,
    pub accept_invalid_certs: bool,
    pub kms_access_token: Option<String>,
    pub ssl_client_pkcs12_path: Option<String>,
    pub ssl_client_pkcs12_password: Option<String>,
    /// The secret of the client's database, in base64.
    pub kms_database_secret: Option<String>,
}

impl Default for ClientConf {
    fn default() -> (r: ClientConf)
        ensures
            r.kms_server_url@ == "http://0.0.0.0:9998"@,
            !r.accept_invalid_certs,
            r.kms_access_token is None,
            r.ssl_client_pkcs12_path is None,
            r.ssl_client_pkcs12_password is None,
            r.kms_database_secret is None,
    {
        ClientConf {
            kms_server_url: String::from_str("http://0.0.0.0:9998"),
            accept_invalid_certs: false,
            kms_access_token: None,
            ssl_client_pkcs12_path: None,
            ssl_client_pkcs12_password: None,
            kms_database_secret: None,
        }
    }
}

impl Clone for ClientConf {
    fn clone(&self) -> (r: ClientConf)
        ensures
            r.kms_server_url@ == self.kms_server_url@,
            r.accept_invalid_certs == self.accept_invalid_certs,
            opt_string_view(r.kms_access_token) == opt_string_view(self.kms_access_token),
            opt_string_view(r.ssl_client_pkcs12_path) == opt_string_view(
                self.ssl_client_pkcs12_path,
            ),
            opt_string_view(r.ssl_client_pkcs12_password) == opt_string_view(
                self.ssl_client_pkcs12_password,
            ),
            opt_string_view(r.kms_database_secret) == opt_string_view(self.kms_database_secret),
    {
        ClientConf {
            kms_server_url: self.kms_server_url.clone(),
            accept_invalid_certs: self.accept_invalid_certs,
            kms_access_token: clone_opt_string(&self.kms_access_token),
            ssl_client_pkcs12_path: clone_opt_string(&self.ssl_client_pkcs12_path),
            ssl_client_pkcs12_password: clone_opt_string(&self.ssl_client_pkcs12_password),
            kms_database_secret: clone_opt_string(&self.kms_database_secret),
        }
    }
}

/// A relative path under a directory: the two joined by a slash, unless
/// the directory is empty or ends with one.
pub open spec fn joined(root: Seq<char>, relative: Seq<char>) -> Seq<char> {
    if root.len() == 0 {
        relative
    } else if root.last() == '/' {
        root + relative
    } else {
        root + "/"@ + relative
    }
}

pub fn join(root: &str, relative: &str) -> (r: String)
    ensures
        r@ == joined(root@, relative@),
{
    let n = root.unicode_len();
    let mut out = String::from_str(root);
    if n == 0 {
        assert(root@ + relative@ =~= relative@);
    } else if root.get_char(n - 1) != '/' {
        out.append("/");
    }
    out.append(relative);
    out
}

/// The configuration of a server for tests on a port: an encrypted
/// embedded database that is cleared on start; the given identity
/// providers where tokens are used; the server's PKCS#12 file where HTTPS
/// is used, and with it the authority certificate where client
/// certificates are.
pub fn generate_server_params(
    root_dir: &str,
    port: u16,
    jwt_config: Option<JwtAuthConfig>,
    use_https: bool,
    use_client_cert: bool,
) -> (r: ClapConfig)
    ensures
        r.http.port == port,
        r.db.database_type is Some && r.db.database_type->0@ == "sqlite-enc"@,
        r.db.clear_database,
        match jwt_config {
            Some(c) => r.auth == c,
            None => r.auth.jwt_issuer_uri is None && r.auth.jwks_uri is None
                && r.auth.jwt_audience is None,
        },
        use_https ==> {
            &&& r.http.https_p12_file is Some
            &&& r.http.https_p12_file->0@ == joined(
                root_dir@,
                "certificates/server/kmserver.acme.com.p12"@,
            )
            &&& r.http.https_p12_password is Some
            &&& r.http.https_p12_password->0@ == "password"@
        },
        !use_https ==> r.http.https_p12_file is None && r.http.https_p12_password is None,
        use_https && use_client_cert ==> r.http.authority_cert_file is Some
            && r.http.authority_cert_file->0@ == joined(root_dir@, "certificates/server/ca.crt"@),
        !(use_https && use_client_cert) ==> r.http.authority_cert_file is None,
{
    let mut http = HttpConfig::default();
    http.port = port;
    if use_https {
        http.https_p12_file = Some(join(root_dir, "certificates/server/kmserver.acme.com.p12"));
        http.https_p12_password = Some(String::from_str("password"));
        if use_client_cert {
            http.authority_cert_file = Some(join(root_dir, "certificates/server/ca.crt"));
        }
    }
    let mut db = DBConfig::default();
    db.database_type = Some(String::from_str("sqlite-enc"));
    db.clear_database = true;
    let mut config = ClapConfig::default();
    config.auth = match jwt_config {
        Some(c) => c,
        None => JwtAuthConfig::default(),
    };
    config.db = db;
    config.http = http;
    config
}

/// The address of a server for tests.
pub open spec fn test_url(https: bool, port: u16) -> Seq<char> {
    (if https {
        "https://0.0.0.0:"@
    } else {
        "http://0.0.0.0:"@
    }) + digits(port as nat)
}

/// The place of the configuration of a client of a server for tests.
pub open spec fn conf_path(who: Seq<char>, port: u16) -> Seq<char> {
    "/tmp/"@ + who + "_kms_"@ + digits(port as nat) + ".json"@
}

fn conf_path_of(who: &str, port: u16) -> (r: String)
    ensures
        r@ == conf_path(who@, port),
{
    let mut path = String::from_str("/tmp/");
    path.append(who);
    path.append("_kms_");
    path.append(to_decimal(port as u64).as_str());
    path.append(".json");
    path
}

/// The configuration of the owner of the objects on a server for tests,
/// and the place where it is written: the owner accepts any certificate
/// of the server, brings the given token where the server has identity
/// providers, and its own certificate where the server verifies them.
pub fn generate_owner_conf(server_params: &ServerParams, root_dir: &str, access_token: &str) -> (r: (
    String,
    ClientConf,
))
    ensures
        r.0@ == conf_path("owner"@, server_params.port),
        r.1.kms_server_url@ == test_url(
            server_params.http_params.spec_is_running_https(),
            server_params.port,
        ),
        r.1.accept_invalid_certs,
        opt_string_view(r.1.kms_access_token) == if server_params.identity_provider_configurations
            is Some {
            Some(access_token@)
        } else {
            None
        },
        opt_string_view(r.1.ssl_client_pkcs12_path) == if server_params.client_cert is Some {
            Some(joined(root_dir@, "certificates/owner/owner.client.acme.com.p12"@))
        } else {
            None
        },
        opt_string_view(r.1.ssl_client_pkcs12_password) == if server_params.client_cert is Some {
            Some("password"@)
        } else {
            None
        },
        r.1.kms_database_secret is None,
{
    let path = conf_path_of("owner", server_params.port);
    let mut url = if server_params.http_params.is_running_https() {
        String::from_str("https://0.0.0.0:")
    } else {
        String::from_str("http://0.0.0.0:")
    };
    url.append(to_decimal(server_params.port as u64).as_str());
    let mut conf = ClientConf::default();
    conf.kms_server_url = url;
    conf.accept_invalid_certs = true;
    if server_params.identity_provider_configurations.is_some() {
        conf.kms_access_token = Some(String::from_str(access_token));
    }
    if server_params.client_cert.is_some() {
        conf.ssl_client_pkcs12_path = Some(
            join(root_dir, "certificates/owner/owner.client.acme.com.p12"),
        );
        conf.ssl_client_pkcs12_password = Some(String::from_str("password"));
    }
    (path, conf)
}

/// The configuration of a user of a server for tests, and the place where
/// it is written: the owner's, with the user's own certificate.
pub fn generate_user_conf(port: u16, owner_client_conf: &ClientConf, root_dir: &str) -> (r: (
    String,
    ClientConf,
))
    ensures
        r.0@ == conf_path("user"@, port),
        r.1.kms_server_url@ == owner_client_conf.kms_server_url@,
        r.1.accept_invalid_certs == owner_client_conf.accept_invalid_certs,
        opt_string_view(r.1.kms_access_token) == opt_string_view(
            owner_client_conf.kms_access_token,
        ),
        opt_string_view(r.1.kms_database_secret) == opt_string_view(
            owner_client_conf.kms_database_secret,
        ),
        opt_string_view(r.1.ssl_client_pkcs12_path) == Some(
            joined(root_dir@, "certificates/user/user.client.acme.com.p12"@),
        ),
        opt_string_view(r.1.ssl_client_pkcs12_password) == Some("password"@),
{
    let mut conf = owner_client_conf.clone();
    conf.ssl_client_pkcs12_path = Some(join(root_dir, "certificates/user/user.client.acme.com.p12"));
    conf.ssl_client_pkcs12_password = Some(String::from_str("password"));
    (conf_path_of("user", port), conf)
}

/// The secret of a client's database, out of its base64 text.
pub fn database_secret(conf: &ClientConf) -> (r: Option<Vec<u8>>)
    requires
        conf.kms_database_secret is Some,
    ensures
        match r {
            Some(bytes) => base64_decoded(encode_utf8(conf.kms_database_secret->0@)) == Some(
                bytes@,
            ),
            None => base64_decoded(encode_utf8(conf.kms_database_secret->0@)) is None,
        },
{
    match &conf.kms_database_secret {
        Some(text) => {
            match base64_decode(text.as_str().as_bytes()) {
                Ok(bytes) => Some(bytes),
                Err(_) => None,
            }
        },
        None => None,
    }
}

/// The secret of a client's database, where the client has one and its
/// text is base64.
pub fn database_secret_checked(conf: &ClientConf) -> (r: Option<Vec<u8>>)
    ensures
        match r {
            Some(bytes) => conf.kms_database_secret is Some && base64_decoded(
                encode_utf8(conf.kms_database_secret->0@),
            ) == Some(bytes@),
            None => conf.kms_database_secret is None || base64_decoded(
                encode_utf8(conf.kms_database_secret->0@),
            ) is None,
        },
{
    if conf.kms_database_secret.is_some() {
        database_secret(conf)
    } else {
        None
    }
}

/// Whether a client configuration that does not open the database can
/// be made of a correct one and the bytes of another secret: the correct
/// one has a secret in base64, and the bytes are not beyond what the
/// encoder takes.
pub open spec fn can_be_invalidated(correct_conf: ClientConf, bad_secret: Seq<u8>) -> bool {
    &&& bad_secret.len() <= MAX_INPUT
    &&& correct_conf.kms_database_secret is Some
    &&& base64_decoded(encode_utf8(correct_conf.kms_database_secret->0@)) is Some
}

/// Whether a configuration is a correct one with its secret replaced by
/// the base64 text of the given bytes.
pub open spec fn invalidates(conf: ClientConf, correct_conf: ClientConf, bad_secret: Seq<u8>) -> bool {
    &&& conf.kms_server_url@ == correct_conf.kms_server_url@
    &&& conf.accept_invalid_certs == correct_conf.accept_invalid_certs
    &&& opt_string_view(conf.kms_access_token) == opt_string_view(correct_conf.kms_access_token)
    &&& opt_string_view(conf.ssl_client_pkcs12_path) == opt_string_view(
        correct_conf.ssl_client_pkcs12_path,
    )
    &&& opt_string_view(conf.ssl_client_pkcs12_password) == opt_string_view(
        correct_conf.ssl_client_pkcs12_password,
    )
    &&& conf.kms_database_secret is Some
    &&& encode_utf8(conf.kms_database_secret->0@) == base64_of(bad_secret)
    &&& base64_decoded(encode_utf8(conf.kms_database_secret->0@)) == Some(bad_secret)
}

/// A client configuration that does not open the database: the correct
/// one with another secret, the base64 text of the given bytes; and the
/// place where it is written. The correct one has a secret in base64.
pub fn generate_invalid_conf(correct_conf: &ClientConf, bad_secret: &[u8]) -> (r: (String, ClientConf))
    requires
        can_be_invalidated(*correct_conf, bad_secret@),
    ensures
        r.0@ == "/tmp/invalid_conf.json"@,
        invalidates(r.1, *correct_conf, bad_secret@),
{
    let text = base64_encode(bad_secret);
    assert forall|i: int| 0 <= i < text@.len() implies text@[i] < 128 by {
        assert(is_base64_byte(text@[i]));
    }
    let ghost bytes = text@;
    let token = ascii_text(text);
    proof {
        vstd::utf8::decode_utf8_encode_utf8(bytes);
    }
    let mut conf = correct_conf.clone();
    conf.kms_database_secret = Some(token);
    (String::from_str("/tmp/invalid_conf.json"), conf)
}

/// A client configuration that does not open the database, where one can
/// be made of the correct one and the bytes.
pub fn invalid_conf_for(correct_conf: &ClientConf, bad_secret: &[u8]) -> (r: Option<
    (String, ClientConf),
>)
    ensures
        r is Some <==> can_be_invalidated(*correct_conf, bad_secret@),
        match r {
            Some((path, conf)) => path@ == "/tmp/invalid_conf.json"@ && invalidates(
                conf,
                *correct_conf,
                bad_secret@,
            ),
            None => true,
        },
{
    if bad_secret.len() > MAX_INPUT {
        return None;
    }
    if database_secret_checked(correct_conf).is_none() {
        return None;
    }
    Some(generate_invalid_conf(correct_conf, bad_secret))
}

/// The patience with which the start of a server is awaited: how many
/// more failures are borne, and how long the next wait is.
#[derive(Clone, Copy, Debug, PartialEq, Eq, Structural)]
pub struct Patience {
    pub timeout: i32,
    pub waiting: u64,
}

/// What to do after asking the server whether it is up.
#[derive(Clone, Copy, Debug, PartialEq, Eq, Structural)]
pub enum Step {
    /// The server is up.
    Up,
    /// Wait so many seconds, then ask again.
    Wait(u64),
    /// Stop asking: the server did not start.
    GiveUp,
}

/// The wait before the next question, after so many failures.
pub open spec fn wait_after(failures: int) -> u64 {
    if failures <= 0 {
        1
    } else if failures == 1 {
        2
    } else if failures == 2 {
        4
    } else if failures == 3 {
        8
    } else if failures == 4 {
        16
    } else {
        32
    }
}

impl Patience {
    /// The patience at the first question: five failures are borne, and
    /// the first wait is a second.
    pub fn new() -> (r: Patience)
        ensures
            r == (Patience { timeout: 5, waiting: 1 }),
            r.well_formed(),
    {
        Patience { timeout: 5, waiting: 1 }
    }

    /// The patience after some failures out of six.
    pub open spec fn well_formed(self) -> bool {
        -1 <= self.timeout <= 5 && self.waiting == wait_after(5 - self.timeout)
    }

    /// What follows an answer. A server that is up ends the waiting. A
    /// failure costs one of the failures that are borne; while some are
    /// left, the wait is the one due and the next is twice as long; when
    /// none is left, the waiting is given up.
    pub open spec fn after(self, up: bool) -> (Patience, Step) {
        if up {
            (self, Step::Up)
        } else if self.timeout >= 1 {
            (
                Patience { timeout: (self.timeout - 1) as i32, waiting: (self.waiting * 2) as u64 },
                Step::Wait(self.waiting),
            )
        } else {
            (Patience { timeout: -1i32, waiting: self.waiting }, Step::GiveUp)
        }
    }

    pub fn next(self, up: bool) -> (r: (Patience, Step))
        requires
            self.well_formed(),
        ensures
            r == self.after(up),
            r.0.well_formed() || r.1 == Step::GiveUp,
    {
        if up {
            (self, Step::Up)
        } else if self.timeout >= 1 {
            (Patience { timeout: self.timeout - 1, waiting: self.waiting * 2 }, Step::Wait(self.waiting))
        } else {
            (Patience { timeout: -1, waiting: self.waiting }, Step::GiveUp)
        }
    }
}

/// The patience after so many failures in a row, from the first question
/// on.
pub open spec fn after_failures(n: nat) -> (Patience, Step)
    decreases n,
{
    if n == 0 {
        (Patience { timeout: 5, waiting: 1 }, Step::Up)
    } else {
        after_failures((n - 1) as nat).0.after(false)
    }
}

/// The start of a server is awaited through five failures, with waits of
/// one, two, four, eight and sixteen seconds, and given up at the sixth.
pub proof fn lemma_six_failures_give_up()
    ensures
        after_failures(1).1 == Step::Wait(1),
        after_failures(2).1 == Step::Wait(2),
        after_failures(3).1 == Step::Wait(4),
        after_failures(4).1 == Step::Wait(8),
        after_failures(5).1 == Step::Wait(16),
        after_failures(6).1 == Step::GiveUp,
{
    reveal_with_fuel(after_failures, 7);
}

} // verus!
