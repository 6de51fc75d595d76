//! The configuration of the server as it is given, on the command line or
//! in a file.

use vstd::prelude::*;
use crate::object::opt_string_view;

verus! {

/// Which database the server keeps its objects in.
pub struct DBConfig {
    /// One of `sqlite`, `sqlite-enc`, `postgresql`, `mysql`,
    /// `redis-findex`.
    pub database_type: Option<String>,
    pub database_url: Option<String>,
    pub sqlite_path: String,
    pub redis_master_password: Option<String>,
    pub redis_findex_label: Option<String>,
    /// Whether to clear the database on start.
    pub clear_database: bool,
}

/// Where the server listens, and with which certificates.
pub struct HttpConfig {
    pub port: u16,
    pub hostname: String,
    /// The PKCS#12 file with the server's key and certificate; with it and
    /// its password the server runs in HTTPS.
    pub https_p12_file: Option<String>,
    pub https_p12_password: Option<String>,
    /// The certificate by which client certificates are verified.
    pub authority_cert_file: Option<String>,
}

/// The identity providers whose tokens the server accepts.
pub struct JwtAuthConfig {
    pub jwt_issuer_uri: Option<Vec<String>>,
    pub jwks_uri: Option<Vec<String>>,
    pub jwt_audience: Option<Vec<String>>,
}

/// Where the server keeps its files.
pub struct WorkspaceConfig {
    pub root_data_path: String,
    pub tmp_path: String,
}

pub struct ClapConfig {
    pub db: DBConfig,
    pub http: HttpConfig,
    pub auth: JwtAuthConfig,
    pub workspace: WorkspaceConfig,
    /// The username to use if no authentication method is provided.
    pub default_username: String,
    /// Whether the default username is used also for callers that are
    /// authenticated.
    pub force_default_username: bool,
    pub google_cse_kacls_url: Option<String>,
    pub ms_dke_service_url: Option<String>,
}

/// One identity provider.
pub struct IdpConfig {
    pub jwt_issuer_uri: String,
    pub jwks_uri: Option<String>,
    pub jwt_audience: Option<String>,
}

/// The database that the server was told to use, with what it needs to
/// reach it.
pub enum DbParams {
    Sqlite(String),
    SqliteEnc(String),
    Postgres(String),
    Mysql(String),
    RedisFindex { url: String, master_password: String, label: String },
}

impl Default for DBConfig {
    fn default() -> (r: DBConfig)
        ensures
            r.database_type is None,
            r.database_url is None,
            r.sqlite_path@ == "./sqlite-data"@,
            r.redis_master_password is None,
            r.redis_findex_label is None,
            !r.clear_database,
    {
        DBConfig {
            database_type: None,
            database_url: None,
            sqlite_path: String::from_str("./sqlite-data"),
            redis_master_password: None,
            redis_findex_label: None,
            clear_database: false,
        }
    }
}

impl Default for HttpConfig {
    fn default() -> (r: HttpConfig)
        ensures
            r.port == 9998,
            r.hostname@ == "0.0.0.0"@,
            r.https_p12_file is None,
            r.https_p12_password is None,
            r.authority_cert_file is None,
    {
        HttpConfig {
            port: 9998,
            hostname: String::from_str("0.0.0.0"),
            https_p12_file: None,
            https_p12_password: None,
            authority_cert_file: None,
        }
    }
}

impl Default for JwtAuthConfig {
    fn default() -> (r: JwtAuthConfig)
        ensures
            r.jwt_issuer_uri is None,
            r.jwks_uri is None,
            r.jwt_audience is None,
    {
        JwtAuthConfig { jwt_issuer_uri: None, jwks_uri: None, jwt_audience: None }
    }
}

impl Default for WorkspaceConfig {
    fn default() -> (r: WorkspaceConfig)
        ensures
            r.root_data_path@ == "./cosmian-kms"@,
            r.tmp_path@ == "/tmp"@,
    {
        WorkspaceConfig {
            root_data_path: String::from_str("./cosmian-kms"),
            tmp_path: String::from_str("/tmp"),
        }
    }
}

impl Default for ClapConfig {
    fn default() -> (r: ClapConfig)
        ensures
            r.default_username@ == "admin"@,
            !r.force_default_username,
            r.google_cse_kacls_url is None,
            r.ms_dke_service_url is None,
            r.http.port == 9998,
            r.http.https_p12_file is None,
            r.http.authority_cert_file is None,
            r.auth.jwt_issuer_uri is None,
            r.db.database_type is None,
    {
        ClapConfig {
            db: DBConfig::default(),
            http: HttpConfig::default(),
            auth: JwtAuthConfig::default(),
            workspace: WorkspaceConfig::default(),
            default_username: String::from_str("admin"),
            force_default_username: false,
            google_cse_kacls_url: None,
            ms_dke_service_url: None,
        }
    }
}

/// The entry of a list at a place, where the list is there and has one.
pub open spec fn entry_at(list: Option<Vec<String>>, i: int) -> Option<Seq<char>> {
    match list {
        Some(l) => if 0 <= i < l@.len() {
            Some(l@[i]@)
        } else {
            None
        },
        None => None,
    }
}

fn entry(list: &Option<Vec<String>>, i: usize) -> (r: Option<String>)
    ensures
        opt_string_view(r) == entry_at(*list, i as int),
{
    match list {
        Some(l) => {
            if i < l.len() {
                Some(l[i].clone())
            } else {
                None
            }
        },
        None => None,
    }
}

impl JwtAuthConfig {
    /// The identity providers of the configuration: one for each issuer,
    /// with the key set address and the audience that stand at the same
    /// place in their lists, where they do. Without issuers there is no
    /// authentication by token.
    pub fn extract_idp_configs(&self) -> (r: Option<Vec<IdpConfig>>)
        ensures
            r is Some <==> self.jwt_issuer_uri is Some,
            r is Some ==> {
                &&& r->0@.len() == self.jwt_issuer_uri->0@.len()
                &&& forall|i: int|
                    0 <= i < r->0@.len() ==> {
                        &&& (#[trigger] r->0@[i]).jwt_issuer_uri@ == self.jwt_issuer_uri->0@[i]@
                        &&& opt_string_view(r->0@[i].jwks_uri) == entry_at(self.jwks_uri, i)
                        &&& opt_string_view(r->0@[i].jwt_audience) == entry_at(self.jwt_audience, i)
                    }
            },
    {
        let issuers = match &self.jwt_issuer_uri {
            Some(i) => i,
            None => {
                return None;
            },
        };
        let mut out: Vec<IdpConfig> = Vec::new();
        let mut i: usize = 0;
        while i < issuers.len()
            invariant
                i <= issuers.len(),
                self.jwt_issuer_uri == Some(*issuers),
                out@.len() == i,
                forall|k: int|
                    0 <= k < i ==> {
                        &&& (#[trigger] out@[k]).jwt_issuer_uri@ == issuers@[k]@
                        &&& opt_string_view(out@[k].jwks_uri) == entry_at(self.jwks_uri, k)
                        &&& opt_string_view(out@[k].jwt_audience) == entry_at(self.jwt_audience, k)
                    },
            decreases issuers.len() - i,
        {
            out.push(
                IdpConfig {
                    jwt_issuer_uri: issuers[i].clone(),
                    jwks_uri: entry(&self.jwks_uri, i),
                    jwt_audience: entry(&self.jwt_audience, i),
                },
            );
            i += 1;
        }
        Some(out)
    }
}

/// Why a configuration of the database is refused.
#[derive(Clone, Copy, Debug, PartialEq, Eq, Structural)]
pub enum DbConfigError {
    /// The kind of database is not one the server knows.
    UnknownType,
    /// The kind of database needs an address, and none is given.
    MissingUrl,
    /// The kind of database needs a master password, and none is given.
    MissingPassword,
    /// The kind of database needs a label, and none is given.
    MissingLabel,
}

/// The kinds of database, by their names.
#[derive(Clone, Copy, Debug, PartialEq, Eq, Structural)]
pub enum DbKind {
    Sqlite,
    SqliteEnc,
    Postgres,
    Mysql,
    RedisFindex,
}

pub open spec fn db_kind(name: Seq<char>) -> Option<DbKind> {
    if name == "sqlite"@ {
        Some(DbKind::Sqlite)
    } else if name == "sqlite-enc"@ {
        Some(DbKind::SqliteEnc)
    } else if name == "postgresql"@ {
        Some(DbKind::Postgres)
    } else if name == "mysql"@ {
        Some(DbKind::Mysql)
    } else if name == "redis-findex"@ {
        Some(DbKind::RedisFindex)
    } else {
        None
    }
}

fn db_kind_of(name: &String) -> (r: Option<DbKind>)
    ensures
        r == db_kind(name@),
{
    if *name == String::from_str("sqlite") {
        Some(DbKind::Sqlite)
    } else if *name == String::from_str("sqlite-enc") {
        Some(DbKind::SqliteEnc)
    } else if *name == String::from_str("postgresql") {
        Some(DbKind::Postgres)
    } else if *name == String::from_str("mysql") {
        Some(DbKind::Mysql)
    } else if *name == String::from_str("redis-findex") {
        Some(DbKind::RedisFindex)
    } else {
        None
    }
}

impl DBConfig {
    /// The first reason for which the configuration is refused.
    pub open spec fn defect(self) -> Option<DbConfigError> {
        match self.database_type {
            None => None,
            Some(name) => match db_kind(name@) {
                None => Some(DbConfigError::UnknownType),
                Some(DbKind::Sqlite) => None,
                Some(DbKind::SqliteEnc) => None,
                Some(DbKind::RedisFindex) => if self.database_url is None {
                    Some(DbConfigError::MissingUrl)
                } else if self.redis_master_password is None {
                    Some(DbConfigError::MissingPassword)
                } else if self.redis_findex_label is None {
                    Some(DbConfigError::MissingLabel)
                } else {
                    None
                },
                Some(_) => if self.database_url is None {
                    Some(DbConfigError::MissingUrl)
                } else {
                    None
                },
            },
        }
    }

    /// Whether parameters are those of the database that this
    /// configuration names: the embedded ones lie under the given path,
    /// the others are reached under the given address.
    pub open spec fn names(self, p: Option<DbParams>) -> bool {
        match p {
            None => self.database_type is None,
            Some(params) => self.database_type is Some && match (
                db_kind(self.database_type->0@),
                params,
            ) {
                (Some(DbKind::Sqlite), DbParams::Sqlite(path)) => path@ == self.sqlite_path@,
                (Some(DbKind::SqliteEnc), DbParams::SqliteEnc(path)) => path@ == self.sqlite_path@,
                (Some(DbKind::Postgres), DbParams::Postgres(url)) => Some(url@) == opt_string_view(
                    self.database_url,
                ),
                (Some(DbKind::Mysql), DbParams::Mysql(url)) => Some(url@) == opt_string_view(
                    self.database_url,
                ),
                (
                    Some(DbKind::RedisFindex),
                    DbParams::RedisFindex { url, master_password, label },
                ) => Some(url@) == opt_string_view(self.database_url) && Some(master_password@)
                    == opt_string_view(self.redis_master_password) && Some(label@)
                    == opt_string_view(self.redis_findex_label),
                _ => false,
            },
        }
    }

    /// The database that the configuration names, if it names one.
    pub fn init(&self) -> (r: Result<Option<DbParams>, DbConfigError>)
        ensures
            match r {
                Err(e) => self.defect() == Some(e),
                Ok(p) => self.defect() is None && self.names(p),
            },
    {
        let name = match &self.database_type {
            Some(n) => n,
            None => {
                return Ok(None);
            },
        };
        let kind = match db_kind_of(name) {
            Some(k) => k,
            None => {
                return Err(DbConfigError::UnknownType);
            },
        };
        match kind {
            DbKind::Sqlite => Ok(Some(DbParams::Sqlite(self.sqlite_path.clone()))),
            DbKind::SqliteEnc => Ok(Some(DbParams::SqliteEnc(self.sqlite_path.clone()))),
            DbKind::Postgres => match &self.database_url {
                Some(url) => Ok(Some(DbParams::Postgres(url.clone()))),
                None => Err(DbConfigError::MissingUrl),
            },
            DbKind::Mysql => match &self.database_url {
                Some(url) => Ok(Some(DbParams::Mysql(url.clone()))),
                None => Err(DbConfigError::MissingUrl),
            },
            DbKind::RedisFindex => {
                let url = match &self.database_url {
                    Some(u) => u.clone(),
                    None => {
                        return Err(DbConfigError::MissingUrl);
                    },
                };
                let master_password = match &self.redis_master_password {
                    Some(p) => p.clone(),
                    None => {
                        return Err(DbConfigError::MissingPassword);
                    },
                };
                let label = match &self.redis_findex_label {
                    Some(l) => l.clone(),
                    None => {
                        return Err(DbConfigError::MissingLabel);
                    },
                };
                Ok(Some(DbParams::RedisFindex { url, master_password, label }))
            },
        }
    }
}

} // verus!
