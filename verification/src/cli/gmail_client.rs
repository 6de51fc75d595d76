//! The requests to the mail service: where they go, what they carry, and
//! what the client makes of the answers. Sending them is the caller's.

use vstd::prelude::*;
use vstd::utf8::encode_utf8;
use crate::cli::error::{CliError, CliErrorView, GoogleApiError};

verus! {

/// The body of an answer that reports a failure.
pub struct RequestError {
    pub error: ErrorContent,
}

pub struct ErrorContent {
    pub message: String,
}

/// The account in whose name the client talks to the mail service.
pub struct ServiceAccount {
    pub client_email: String,
    pub private_key_id: String,
    pub private_key: String,
    pub token_uri: String,
}

/// Under this address the mail service keeps its users.
pub open spec fn users_url() -> Seq<char> {
    "https://gmail.googleapis.com/gmail/v1/users/"@
}

pub struct GmailClientBuilder {
    pub service_account: ServiceAccount,
    pub user_id: String,
}

impl GmailClientBuilder {
    /// A builder for the given user, from the service account as it was
    /// loaded; a failure to load it is handed on.
    pub fn new(service_account: Result<ServiceAccount, CliError>, user_id: String) -> (r: Result<
        GmailClientBuilder,
        CliError,
    >)
        ensures
            match (service_account, r) {
                (Ok(account), Ok(builder)) => builder.service_account == account && builder.user_id
                    == user_id,
                (Err(e), Err(f)) => f == e,
                _ => false,
            },
    {
        match service_account {
            Ok(account) => Ok(GmailClientBuilder { service_account: account, user_id }),
            Err(e) => Err(e),
        }
    }

    /// The client, once the access token was retrieved; a failure to
    /// retrieve it is handed on.
    pub fn build(self, token: Result<String, CliError>) -> (r: Result<GmailClient, CliError>)
        ensures
            match (token, r) {
                (Ok(t), Ok(client)) => client.token == t && client.base_url@ == users_url()
                    + self.user_id@,
                (Err(e), Err(f)) => f == e,
                _ => false,
            },
    {
        match token {
            Ok(token) => {
                let mut base_url = String::from_str("https://gmail.googleapis.com/gmail/v1/users/");
                base_url.append(self.user_id.as_str());
                Ok(GmailClient { token, base_url })
            },
            Err(e) => Err(e),
        }
    }
}

/// The verb of a request.
#[derive(Clone, Copy, Debug, PartialEq, Eq, Structural)]
pub enum Method {
    Get,
    Post,
    Patch,
    Delete,
}

/// A request to the mail service, ready to be sent.
pub struct GmailRequest {
    pub method: Method,
    pub url: String,
    /// The token that authorizes the request.
    pub bearer_token: String,
    /// The type of the content, where there is content.
    pub content_type: Option<String>,
    /// The length of the content in bytes, where there is content.
    pub content_length: Option<usize>,
    pub body: Option<String>,
}

pub struct GmailClient {
    pub token: String,
    pub base_url: String,
}

/// What was read of an answer: its text, or the failure it reports.
pub enum ResponseBody {
    Text(String),
    Failure(RequestError),
}

/// Whether a status reports success.
pub open spec fn spec_is_success(status: u16) -> bool {
    200 <= status < 300
}

#[verifier::when_used_as_spec(spec_is_success)]
pub fn is_success(status: u16) -> (r: bool)
    ensures
        r == spec_is_success(status),
{
    200 <= status && status < 300
}

impl GmailClient {
    /// The client for a user, from the service account as it was loaded
    /// and the access token as it was retrieved.
    pub fn new(
        service_account: Result<ServiceAccount, CliError>,
        user_id: &str,
        token: Result<String, CliError>,
    ) -> (r: Result<GmailClient, CliError>)
        ensures
            match (service_account, token, r) {
                (Ok(_), Ok(t), Ok(client)) => client.token == t && client.base_url@ == users_url()
                    + user_id@,
                (Ok(_), Err(e), Err(f)) => f == e,
                (Err(e), _, Err(f)) => f == e,
                _ => false,
            },
    {
        match GmailClientBuilder::new(service_account, String::from_str(user_id)) {
            Ok(builder) => builder.build(token),
            Err(e) => Err(e),
        }
    }

    /// A request without content to an endpoint.
    fn bare(&self, method: Method, endpoint: &str) -> (r: GmailRequest)
        ensures
            r.method == method,
            r.url@ == self.base_url@ + endpoint@,
            r.bearer_token@ == self.token@,
            r.content_type is None,
            r.content_length is None,
            r.body is None,
    {
        let mut url = self.base_url.clone();
        url.append(endpoint);
        GmailRequest {
            method,
            url,
            bearer_token: self.token.clone(),
            content_type: None,
            content_length: None,
            body: None,
        }
    }

    /// A request with content in JSON to an endpoint.
    fn with_content(&self, method: Method, endpoint: &str, content: String) -> (r: GmailRequest)
        ensures
            r.method == method,
            r.url@ == self.base_url@ + endpoint@,
            r.bearer_token@ == self.token@,
            r.content_type is Some && r.content_type->0@ == "application/json"@,
            r.content_length == Some(encode_utf8(content@).len() as usize),
            r.body == Some(content),
    {
        let mut url = self.base_url.clone();
        url.append(endpoint);
        GmailRequest {
            method,
            url,
            bearer_token: self.token.clone(),
            content_type: Some(String::from_str("application/json")),
            content_length: Some(content.as_str().len()),
            body: Some(content),
        }
    }

    pub fn get(&self, endpoint: &str) -> (r: GmailRequest)
        ensures
            r.method == Method::Get,
            r.url@ == self.base_url@ + endpoint@,
            r.bearer_token@ == self.token@,
            r.content_type is None,
            r.content_length is None,
            r.body is None,
    {
        self.bare(Method::Get, endpoint)
    }

    pub fn post(&self, endpoint: &str, content: String) -> (r: GmailRequest)
        ensures
            r.method == Method::Post,
            r.url@ == self.base_url@ + endpoint@,
            r.bearer_token@ == self.token@,
            r.content_type is Some && r.content_type->0@ == "application/json"@,
            r.content_length == Some(encode_utf8(content@).len() as usize),
            r.body == Some(content),
    {
        self.with_content(Method::Post, endpoint, content)
    }

    pub fn patch(&self, endpoint: &str, content: String) -> (r: GmailRequest)
        ensures
            r.method == Method::Patch,
            r.url@ == self.base_url@ + endpoint@,
            r.bearer_token@ == self.token@,
            r.content_type is Some && r.content_type->0@ == "application/json"@,
            r.content_length == Some(encode_utf8(content@).len() as usize),
            r.body == Some(content),
    {
        self.with_content(Method::Patch, endpoint, content)
    }

    pub fn delete(&self, endpoint: &str) -> (r: GmailRequest)
        ensures
            r.method == Method::Delete,
            r.url@ == self.base_url@ + endpoint@,
            r.bearer_token@ == self.token@,
            r.content_type is None,
            r.content_length is None,
            r.body is None,
    {
        self.bare(Method::Delete, endpoint)
    }

    /// What the client makes of an answer. An answer of success is read
    /// as text, which is what the client shows; any other as the failure
    /// it reports, which becomes the client's error. Where the answer
    /// could not be read, that is the error.
    pub fn handle_response(status: u16, body: Result<ResponseBody, GoogleApiError>) -> (r: Result<
        String,
        CliError,
    >)
        ensures
            match body {
                Err(GoogleApiError::Reqwest(m)) => r is Err && r->Err_0@ == CliErrorView::GoogleApi(
                    m@,
                ),
                Ok(ResponseBody::Text(t)) => if is_success(status) {
                    r == Ok::<String, CliError>(t)
                } else {
                    r is Err && r->Err_0@ == CliErrorView::GoogleApi(
                        "the failure was not read"@,
                    )
                },
                Ok(ResponseBody::Failure(f)) => if is_success(status) {
                    r is Err && r->Err_0@ == CliErrorView::GoogleApi("the text was not read"@)
                } else {
                    r is Err && r->Err_0@ == CliErrorView::GmailApiError(f.error.message@)
                },
            },
    {
        match body {
            Err(e) => Err(CliError::GoogleApi(e)),
            Ok(ResponseBody::Text(t)) => {
                if is_success(status) {
                    Ok(t)
                } else {
                    Err(
                        CliError::GoogleApi(
                            GoogleApiError::Reqwest(String::from_str("the failure was not read")),
                        ),
                    )
                }
            },
            Ok(ResponseBody::Failure(f)) => {
                if is_success(status) {
                    Err(
                        CliError::GoogleApi(
                            GoogleApiError::Reqwest(String::from_str("the text was not read")),
                        ),
                    )
                } else {
                    Err(CliError::GmailApiError(f.error.message))
                }
            },
        }
    }
}

} // verus!
