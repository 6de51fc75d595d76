//! The parameters that the server runs with, made once from its
//! configuration and the files that the configuration names.

use vstd::prelude::*;
use crate::access::IdentityPolicy;
use vstd::utf8::decode_utf8;
use crate::bytes::{ascii_text, hex_of, lemma_hex_is_ascii, to_hex};
use crate::codec::{
    KeyMaterialView,
    Pkcs12Material,
    decode_pkcs12,
    decoded_pkcs12,
};
use crate::crypto::{
    MAX_INPUT,
    certificate_of_pem,
    parse_certificate_pem,
};
use crate::decimal::{
    digits,
    to_decimal,
};
use crate::error::CodecError;
use crate::object::{
    clone_opt_string,
    opt_string_view,
};
use crate::server::config::{
    ClapConfig,
    DbConfigError,
    DbParams,
    HttpConfig,
    IdpConfig,
    entry_at,
};

verus! {

/// Why the server does not start with a configuration.
pub enum ServerError {
    /// The configuration contradicts itself or lacks something.
    Configuration(String),
    /// A certificate or key file does not decode.
    Certificate(CodecError),
    /// The database is not configured as its kind needs.
    Database(DbConfigError),
}

pub enum ServerErrorView {
    Configuration(Seq<char>),
    Certificate(CodecError),
    Database(DbConfigError),
}

impl View for ServerError {
    type V = ServerErrorView;

    open spec fn view(&self) -> ServerErrorView {
        match self {
            ServerError::Configuration(m) => ServerErrorView::Configuration(m@),
            ServerError::Certificate(e) => ServerErrorView::Certificate(*e),
            ServerError::Database(e) => ServerErrorView::Database(*e),
        }
    }
}

pub type KResult<T> = Result<T, ServerError>;

/// The files that the configuration names, as they were read.
pub struct ConfigFiles {
    /// The bytes of the PKCS#12 file of the server.
    pub https_p12: Option<Vec<u8>>,
    /// The bytes of the authority certificate file.
    pub authority_cert: Option<Vec<u8>>,
}

/// How the server is reached: in the clear, or with the key and the
/// certificates of its PKCS#12 file.
pub enum HttpParams {
    Https(Pkcs12Material),
    Http,
}

/// The certificate by which client certificates are verified.
pub struct ClientCertificate {
    /// The certificate in X.509.
    pub der: Vec<u8>,
    /// The encoded name of its subject.
    pub subject: Vec<u8>,
}

impl Clone for ClientCertificate {
    fn clone(&self) -> (r: Self)
        ensures
            r.der@ == self.der@,
            r.subject@ == self.subject@,
    {
        ClientCertificate { der: self.der.clone(), subject: self.subject.clone() }
    }
}

/// Whether the configuration asks for HTTPS: it names a PKCS#12 file and
/// its password.
pub open spec fn wants_https(http: HttpConfig) -> bool {
    http.https_p12_file is Some && http.https_p12_password is Some
}

pub open spec fn missing_file() -> Seq<char> {
    "The file that the configuration names was not read"@
}

pub open spec fn authority_needs_https() -> Seq<char> {
    "The authority certificate file can only be used when the server is running in HTTPS mode"@
}

/// What an armoured certificate loads to: its binary encoding and the
/// encoded name of its subject. A text beyond what the reader takes is
/// malformed.
pub open spec fn loaded_cert(pem: Seq<u8>) -> Result<(Seq<u8>, Seq<u8>), ServerErrorView> {
    if pem.len() > MAX_INPUT {
        Err(ServerErrorView::Certificate(CodecError::MalformedInput))
    } else {
        match certificate_of_pem(pem) {
            None => Err(ServerErrorView::Certificate(CodecError::MalformedInput)),
            Some((der, subject, _, _)) => Ok((der, subject)),
        }
    }
}

/// What the PKCS#12 file of a configuration that asks for HTTPS gives:
/// its key and certificates, or why it gives none.
pub open spec fn https_material(http: HttpConfig, p12: Option<Vec<u8>>) -> Result<
    (KeyMaterialView, Option<Seq<u8>>, Seq<Seq<u8>>),
    ServerErrorView,
> {
    match p12 {
        None => Err(ServerErrorView::Configuration(missing_file())),
        Some(bytes) => match decoded_pkcs12(bytes@, http.https_p12_password->0@) {
            Err(e) => Err(ServerErrorView::Certificate(e)),
            Ok(m) => Ok(m),
        },
    }
}

/// What loading the authority certificate of a configuration gives, where
/// it names one: the certificate, or why there is none.
pub open spec fn authority_material(http: HttpConfig, authority_cert: Option<Vec<u8>>) -> Result<
    (Seq<u8>, Seq<u8>),
    ServerErrorView,
> {
    if !wants_https(http) {
        Err(ServerErrorView::Configuration(authority_needs_https()))
    } else {
        match authority_cert {
            None => Err(ServerErrorView::Configuration(missing_file())),
            Some(bytes) => loaded_cert(bytes@),
        }
    }
}

/// The failure of the first step that fails when the parameters are made
/// from a configuration and its files: the PKCS#12 file, then the
/// authority certificate, then the database.
pub open spec fn first_failure(conf: ClapConfig, files: ConfigFiles) -> Option<ServerErrorView> {
    if wants_https(conf.http) && https_material(conf.http, files.https_p12) is Err {
        Some(https_material(conf.http, files.https_p12)->Err_0)
    } else if conf.http.authority_cert_file is Some && authority_material(
        conf.http,
        files.authority_cert,
    ) is Err {
        Some(authority_material(conf.http, files.authority_cert)->Err_0)
    } else if conf.db.defect() is Some {
        Some(ServerErrorView::Database(conf.db.defect()->0))
    } else {
        None
    }
}

impl HttpParams {
    pub open spec fn spec_is_running_https(&self) -> bool {
        self is Https
    }

    /// Whether the parameters are those of HTTPS with the given key and
    /// certificates.
    pub open spec fn holds(self, m: (KeyMaterialView, Option<Seq<u8>>, Seq<Seq<u8>>)) -> bool {
        match self {
            HttpParams::Https(held) => held.private_key@ == m.0 && match held.certificate {
                Some(c) => Some(c@),
                None => None,
            } == m.1 && held.chain@.map_values(|c: Vec<u8>| c@) == m.2,
            HttpParams::Http => false,
        }
    }

    #[verifier::when_used_as_spec(spec_is_running_https)]
    pub fn is_running_https(&self) -> (r: bool)
        ensures
            r == self.spec_is_running_https(),
    {
        match self {
            HttpParams::Https(_) => true,
            HttpParams::Http => false,
        }
    }

    /// The way the server is reached under a configuration: with a
    /// PKCS#12 file and its password, HTTPS with what the file holds;
    /// else in the clear.
    pub fn try_from(config: &HttpConfig, p12: &Option<Vec<u8>>) -> (r: KResult<HttpParams>)
        ensures
            !wants_https(*config) ==> r is Ok && r->Ok_0 is Http,
            wants_https(*config) ==> match https_material(*config, *p12) {
                Err(e) => r is Err && r->Err_0@ == e,
                Ok(m) => r is Ok && r->Ok_0.holds(m),
            },
    {
        match (&config.https_p12_file, &config.https_p12_password) {
            (Some(_), Some(password)) => {
                let bytes = match p12 {
                    Some(b) => b,
                    None => {
                        return Err(
                            ServerError::Configuration(
                                String::from_str(
                                    "The file that the configuration names was not read",
                                ),
                            ),
                        );
                    },
                };
                match decode_pkcs12(bytes.as_slice(), Some(password.as_str())) {
                    Ok(m) => Ok(HttpParams::Https(m)),
                    Err(e) => Err(ServerError::Certificate(e)),
                }
            },
            _ => Ok(HttpParams::Http),
        }
    }
}

/// This structure is the context used by the server while it is running.
/// There is one instance, shared by all that serve.
pub struct ServerParams {
    /// The identity providers, if authentication by token is enabled.
    pub identity_provider_configurations: Option<Vec<IdpConfig>>,
    /// The username to use if no authentication method is provided.
    pub default_username: String,
    /// When an authentication method is provided, perform the
    /// authentication but always use the default username.
    pub force_default_username: bool,
    pub db_params: Option<DbParams>,
    /// Whether to clear the database on start.
    pub clear_db_on_start: bool,
    pub hostname: String,
    pub port: u16,
    pub http_params: HttpParams,
    /// The certificate used to verify the client certificates.
    pub client_cert: Option<ClientCertificate>,
    /// The external address of this server as configured for client-side
    /// encryption of Google Workspace.
    pub google_cse_kacls_url: Option<String>,
    /// The external address of this server as configured for double key
    /// encryption.
    pub ms_dke_service_url: Option<String>,
}

fn clone_opt_url(s: &Option<String>) -> (r: Option<String>)
    ensures
        opt_string_view(r) == opt_string_view(*s),
{
    clone_opt_string(s)
}

/// Whether two configurations of an identity provider say the same.
pub open spec fn same_idp(a: IdpConfig, b: IdpConfig) -> bool {
    &&& a.jwt_issuer_uri@ == b.jwt_issuer_uri@
    &&& opt_string_view(a.jwks_uri) == opt_string_view(b.jwks_uri)
    &&& opt_string_view(a.jwt_audience) == opt_string_view(b.jwt_audience)
}

/// Whether two lists of identity providers say the same, one by one.
pub open spec fn same_idps(a: Option<Vec<IdpConfig>>, b: Option<Vec<IdpConfig>>) -> bool {
    match (a, b) {
        (None, None) => true,
        (Some(x), Some(y)) => x@.len() == y@.len() && forall|i: int|
            0 <= i < x@.len() ==> same_idp(#[trigger] x@[i], y@[i]),
        _ => false,
    }
}

impl IdpConfig {
    pub fn clone(&self) -> (r: IdpConfig)
        ensures
            same_idp(r, *self),
    {
        IdpConfig {
            jwt_issuer_uri: self.jwt_issuer_uri.clone(),
            jwks_uri: clone_opt_string(&self.jwks_uri),
            jwt_audience: clone_opt_string(&self.jwt_audience),
        }
    }
}

fn clone_idps(list: &Option<Vec<IdpConfig>>) -> (r: Option<Vec<IdpConfig>>)
    ensures
        same_idps(r, *list),
{
    match list {
        None => None,
        Some(l) => {
            let mut out: Vec<IdpConfig> = Vec::new();
            let mut i: usize = 0;
            while i < l.len()
                invariant
                    i <= l.len(),
                    out@.len() == i,
                    forall|k: int| 0 <= k < i ==> same_idp(#[trigger] out@[k], l@[k]),
                decreases l.len() - i,
            {
                out.push(l[i].clone());
                i += 1;
            }
            Some(out)
        },
    }
}

impl ServerParams {
    /// Loads an armoured certificate.
    pub fn load_cert(pem_bytes: &[u8]) -> (r: KResult<ClientCertificate>)
        ensures
            match r {
                Ok(c) => loaded_cert(pem_bytes@) == Ok::<(Seq<u8>, Seq<u8>), ServerErrorView>(
                    (c.der@, c.subject@),
                ),
                Err(e) => loaded_cert(pem_bytes@) == Err::<(Seq<u8>, Seq<u8>), ServerErrorView>(e@),
            },
    {
        if pem_bytes.len() > MAX_INPUT {
            return Err(ServerError::Certificate(CodecError::MalformedInput));
        }
        match parse_certificate_pem(pem_bytes) {
            Ok(c) => Ok(ClientCertificate { der: c.der, subject: c.subject }),
            Err(_) => Err(ServerError::Certificate(CodecError::MalformedInput)),
        }
    }

    /// The parameters for a configuration and the files it names.
    ///
    /// The server runs in HTTPS where the configuration names a PKCS#12
    /// file and its password. An authority certificate is accepted in
    /// HTTPS alone. The first of these that fails decides the error: the
    /// PKCS#12 file, the authority certificate, the database.
    pub fn try_from(conf: ClapConfig, files: &ConfigFiles) -> (r: KResult<ServerParams>)
        ensures
            match r {
                Ok(p) => {
                    &&& first_failure(conf, *files) is None
                    &&& p.http_params.spec_is_running_https() == wants_https(conf.http)
                    &&& wants_https(conf.http) ==> p.http_params.holds(
                        https_material(conf.http, files.https_p12)->Ok_0,
                    )
                    &&& conf.http.authority_cert_file is None ==> p.client_cert is None
                    &&& conf.http.authority_cert_file is Some ==> p.client_cert is Some
                        && authority_material(conf.http, files.authority_cert) == Ok::<
                        (Seq<u8>, Seq<u8>),
                        ServerErrorView,
                    >((p.client_cert->0.der@, p.client_cert->0.subject@))
                    &&& p.identity_provider_configurations is Some <==> conf.auth.jwt_issuer_uri
                        is Some
                    &&& p.identity_provider_configurations is Some ==> {
                        let idps = p.identity_provider_configurations->0@;
                        &&& idps.len() == conf.auth.jwt_issuer_uri->0@.len()
                        &&& forall|i: int|
                            0 <= i < idps.len() ==> {
                                &&& (#[trigger] idps[i]).jwt_issuer_uri@
                                    == conf.auth.jwt_issuer_uri->0@[i]@
                                &&& opt_string_view(idps[i].jwks_uri) == entry_at(
                                    conf.auth.jwks_uri,
                                    i,
                                )
                                &&& opt_string_view(idps[i].jwt_audience) == entry_at(
                                    conf.auth.jwt_audience,
                                    i,
                                )
                            }
                    }
                    &&& conf.db.defect() is None
                    &&& conf.db.names(p.db_params)
                    &&& p.clear_db_on_start == conf.db.clear_database
                    &&& p.hostname == conf.http.hostname
                    &&& p.port == conf.http.port
                    &&& p.default_username == conf.default_username
                    &&& p.force_default_username == conf.force_default_username
                    &&& p.google_cse_kacls_url == conf.google_cse_kacls_url
                    &&& p.ms_dke_service_url == conf.ms_dke_service_url
                },
                Err(e) => first_failure(conf, *files) == Some(e@),
            },
    {
        let http_params = match HttpParams::try_from(&conf.http, &files.https_p12) {
            Ok(p) => p,
            Err(e) => {
                return Err(e);
            },
        };
        let verify_cert = match &conf.http.authority_cert_file {
            None => None,
            Some(_) => {
                if !http_params.is_running_https() {
                    return Err(
                        ServerError::Configuration(
                            String::from_str(
                                "The authority certificate file can only be used when the server is running in HTTPS mode",
                            ),
                        ),
                    );
                }
                match &files.authority_cert {
                    None => {
                        return Err(
                            ServerError::Configuration(
                                String::from_str(
                                    "The file that the configuration names was not read",
                                ),
                            ),
                        );
                    },
                    Some(bytes) => {
                        match Self::load_cert(bytes.as_slice()) {
                            Ok(c) => Some(c),
                            Err(e) => {
                                return Err(e);
                            },
                        }
                    },
                }
            },
        };
        let identity_provider_configurations = conf.auth.extract_idp_configs();
        let db_params = match conf.db.init() {
            Ok(p) => p,
            Err(e) => {
                return Err(ServerError::Database(e));
            },
        };
        Ok(
            ServerParams {
                identity_provider_configurations,
                db_params,
                clear_db_on_start: conf.db.clear_database,
                hostname: conf.http.hostname,
                port: conf.http.port,
                http_params,
                default_username: conf.default_username,
                force_default_username: conf.force_default_username,
                client_cert: verify_cert,
                google_cse_kacls_url: conf.google_cse_kacls_url,
                ms_dke_service_url: conf.ms_dke_service_url,
            },
        )
    }

    /// The address under which the server is reached.
    pub open spec fn spec_kms_url(self) -> Seq<char> {
        (if self.http_params.spec_is_running_https() {
            "https://"@
        } else {
            "http://"@
        }) + self.hostname@ + ":"@ + digits(self.port as nat)
    }

    pub fn kms_url(&self) -> (r: String)
        ensures
            r@ == self.spec_kms_url(),
    {
        let mut url = if self.http_params.is_running_https() {
            String::from_str("https://")
        } else {
            String::from_str("http://")
        };
        url.append(self.hostname.as_str());
        url.append(":");
        url.append(to_decimal(self.port as u64).as_str());
        url
    }

    /// How callers are named under these parameters.
    pub fn identity_policy(&self) -> (r: IdentityPolicy)
        ensures
            r.default_username@ == self.default_username@,
            r.force_default_username == self.force_default_username,
    {
        IdentityPolicy {
            default_username: self.default_username.clone(),
            force_default_username: self.force_default_username,
        }
    }

    /// What is shown of the parameters, each part with its name and its
    /// text, in the order in which it is shown: a part that is not set is
    /// not shown, but for the address of the double key encryption
    /// service. Of the database its kind alone is shown, and of the
    /// authority certificate the encoded name of its subject, in
    /// hexadecimal.
    pub open spec fn shown(self) -> Seq<(Seq<char>, Seq<char>)> {
        seq![
            ("kms_url"@, self.spec_kms_url()),
            ("db_params"@, db_text(self.db_params)),
            ("clear_db_on_start"@, bool_text(self.clear_db_on_start)),
        ] + (if self.identity_provider_configurations is Some {
            seq![
                (
                    "identity_provider_configurations"@,
                    issuers(self.identity_provider_configurations->0@),
                ),
            ]
        } else {
            Seq::empty()
        }) + (if self.client_cert is Some {
            seq![("verify_cert CN"@, decode_utf8(hex_of(self.client_cert->0.subject@)))]
        } else {
            Seq::empty()
        }) + seq![
            ("default_username"@, self.default_username@),
            ("force_default_username"@, bool_text(self.force_default_username)),
            (
                "http_params"@,
                if self.http_params.spec_is_running_https() {
                    "https"@
                } else {
                    "http"@
                },
            ),
        ] + (if self.google_cse_kacls_url is Some {
            seq![("google_cse_kacls_url"@, self.google_cse_kacls_url->0@)]
        } else {
            Seq::empty()
        }) + seq![
            (
                "ms_dke_service_url"@,
                match self.ms_dke_service_url {
                    Some(url) => url@,
                    None => "None"@,
                },
            ),
        ]
    }

    pub fn fmt(&self) -> (r: Vec<(String, String)>)
        ensures
            r@.map_values(|p: (String, String)| (p.0@, p.1@)) == self.shown(),
    {
        let ghost view = |p: (String, String)| (p.0@, p.1@);
        let mut out: Vec<(String, String)> = Vec::new();
        out.push((String::from_str("kms_url"), self.kms_url()));
        out.push((String::from_str("db_params"), db_text_of(&self.db_params)));
        out.push((String::from_str("clear_db_on_start"), bool_text_of(self.clear_db_on_start)));
        match &self.identity_provider_configurations {
            Some(list) => {
                out.push((String::from_str("identity_provider_configurations"), issuers_of(list)));
            },
            None => {},
        }
        match &self.client_cert {
            Some(c) => {
                proof {
                    lemma_hex_is_ascii(c.subject@);
                }
                out.push(
                    (String::from_str("verify_cert CN"), ascii_text(to_hex(c.subject.as_slice()))),
                );
            },
            None => {},
        }
        out.push((String::from_str("default_username"), self.default_username.clone()));
        out.push(
            (String::from_str("force_default_username"), bool_text_of(self.force_default_username)),
        );
        out.push(
            (
                String::from_str("http_params"),
                if self.http_params.is_running_https() {
                    String::from_str("https")
                } else {
                    String::from_str("http")
                },
            ),
        );
        match &self.google_cse_kacls_url {
            Some(url) => {
                out.push((String::from_str("google_cse_kacls_url"), url.clone()));
            },
            None => {},
        }
        out.push(
            (
                String::from_str("ms_dke_service_url"),
                match &self.ms_dke_service_url {
                    Some(url) => url.clone(),
                    None => String::from_str("None"),
                },
            ),
        );
        assert(out@.map_values(view) =~= self.shown());
        out
    }
}

/// The text of a truth value.
pub open spec fn bool_text(b: bool) -> Seq<char> {
    if b {
        "true"@
    } else {
        "false"@
    }
}

fn bool_text_of(b: bool) -> (r: String)
    ensures
        r@ == bool_text(b),
{
    if b {
        String::from_str("true")
    } else {
        String::from_str("false")
    }
}

/// The text that is shown of the database: its kind, and nothing of what
/// it takes to reach it.
pub open spec fn db_text(db: Option<DbParams>) -> Seq<char> {
    match db {
        None => "None"@,
        Some(DbParams::Sqlite(_)) => "sqlite"@,
        Some(DbParams::SqliteEnc(_)) => "sqlite-enc"@,
        Some(DbParams::Postgres(_)) => "postgresql"@,
        Some(DbParams::Mysql(_)) => "mysql"@,
        Some(DbParams::RedisFindex { .. }) => "redis-findex"@,
    }
}

fn db_text_of(db: &Option<DbParams>) -> (r: String)
    ensures
        r@ == db_text(*db),
{
    match db {
        None => String::from_str("None"),
        Some(DbParams::Sqlite(_)) => String::from_str("sqlite"),
        Some(DbParams::SqliteEnc(_)) => String::from_str("sqlite-enc"),
        Some(DbParams::Postgres(_)) => String::from_str("postgresql"),
        Some(DbParams::Mysql(_)) => String::from_str("mysql"),
        Some(DbParams::RedisFindex { .. }) => String::from_str("redis-findex"),
    }
}

/// The text that is shown of the identity providers: the addresses of
/// the issuers, with a comma and a blank between two.
pub open spec fn issuers(list: Seq<IdpConfig>) -> Seq<char>
    decreases list.len(),
{
    if list.len() == 0 {
        Seq::empty()
    } else {
        issuers(list.drop_last()) + (if list.len() > 1 {
            ", "@
        } else {
            Seq::empty()
        }) + list.last().jwt_issuer_uri@
    }
}

fn issuers_of(list: &Vec<IdpConfig>) -> (r: String)
    ensures
        r@ == issuers(list@),
{
    let mut out = String::from_str("");
    let mut i: usize = 0;
    proof {
        reveal_strlit("");
    }
    assert(list@.take(0) =~= Seq::<IdpConfig>::empty());
    while i < list.len()
        invariant
            i <= list.len(),
            out@ == issuers(list@.take(i as int)),
        decreases list.len() - i,
    {
        proof {
            reveal_strlit(", ");
            assert(list@.take(i + 1).drop_last() =~= list@.take(i as int));
        }
        if i > 0 {
            out.append(", ");
        }
        out.append(list[i].jwt_issuer_uri.as_str());
        i += 1;
    }
    assert(list@.take(list@.len() as int) =~= list@);
    out
}

/// A partial copy of the parameters: the database parameters and what the
/// PKCS#12 file held are not copied, since they may contain sensitive
/// material.
impl Clone for ServerParams {
    fn clone(&self) -> (r: Self)
        ensures
            r.db_params is None,
            r.http_params is Http,
            r.default_username@ == self.default_username@,
            r.force_default_username == self.force_default_username,
            r.clear_db_on_start == self.clear_db_on_start,
            r.hostname@ == self.hostname@,
            r.port == self.port,
            same_idps(r.identity_provider_configurations, self.identity_provider_configurations),
            r.client_cert is Some == self.client_cert is Some,
            r.client_cert is Some ==> r.client_cert->0.der@ == self.client_cert->0.der@
                && r.client_cert->0.subject@ == self.client_cert->0.subject@,
            opt_string_view(r.google_cse_kacls_url) == opt_string_view(self.google_cse_kacls_url),
            opt_string_view(r.ms_dke_service_url) == opt_string_view(self.ms_dke_service_url),
    {
        ServerParams {
            identity_provider_configurations: clone_idps(&self.identity_provider_configurations),
            default_username: self.default_username.clone(),
            force_default_username: self.force_default_username,
            db_params: None,
            clear_db_on_start: self.clear_db_on_start,
            hostname: self.hostname.clone(),
            port: self.port,
            http_params: HttpParams::Http,
            client_cert: match &self.client_cert {
                Some(c) => Some(c.clone()),
                None => None,
            },
            google_cse_kacls_url: clone_opt_url(&self.google_cse_kacls_url),
            ms_dke_service_url: clone_opt_url(&self.ms_dke_service_url),
        }
    }
}

} // verus!
