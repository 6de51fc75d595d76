//! The failures of the command line client.

use vstd::prelude::*;
use crate::error::KmsError;

verus! {

/// A failure in talking to the mail service.
pub enum GoogleApiError {
    /// The request could not be made or the answer not be read.
    Reqwest(String),
}

/// A failure of a client action.
pub enum CliError {
    /// A failure described by its message alone.
    Default(String),
    /// A value could not be converted.
    Conversion(String),
    /// The mail service answered with an error of its own.
    GmailApiError(String),
    /// Talking to the mail service failed.
    GoogleApi(GoogleApiError),
    /// The key management service refused.
    Kms(KmsError),
}

pub enum CliErrorView {
    Default(Seq<char>),
    Conversion(Seq<char>),
    GmailApiError(Seq<char>),
    GoogleApi(Seq<char>),
    Kms(KmsError),
}

impl View for CliError {
    type V = CliErrorView;

    open spec fn view(&self) -> CliErrorView {
        match self {
            CliError::Default(m) => CliErrorView::Default(m@),
            CliError::Conversion(m) => CliErrorView::Conversion(m@),
            CliError::GmailApiError(m) => CliErrorView::GmailApiError(m@),
            CliError::GoogleApi(GoogleApiError::Reqwest(m)) => CliErrorView::GoogleApi(m@),
            CliError::Kms(e) => CliErrorView::Kms(*e),
        }
    }
}

impl CliError {
    /// The text shown for the failure.
    pub open spec fn message(self) -> Seq<char> {
        match self {
            CliError::Default(m) => m@,
            CliError::Conversion(m) => "Conversion error: "@ + m@,
            CliError::GmailApiError(m) => "Error interacting with Gmail API: "@ + m@,
            CliError::GoogleApi(GoogleApiError::Reqwest(m)) => "REQWEST error: "@ + m@,
            CliError::Kms(e) => e.message(),
        }
    }

    pub fn to_string(&self) -> (r: String)
        ensures
            r@ == self.message(),
    {
        match self {
            CliError::Default(m) => m.clone(),
            CliError::Conversion(m) => {
                let mut out = String::from_str("Conversion error: ");
                out.append(m.as_str());
                out
            },
            CliError::GmailApiError(m) => {
                let mut out = String::from_str("Error interacting with Gmail API: ");
                out.append(m.as_str());
                out
            },
            CliError::GoogleApi(GoogleApiError::Reqwest(m)) => {
                let mut out = String::from_str("REQWEST error: ");
                out.append(m.as_str());
                out
            },
            CliError::Kms(e) => e.to_string(),
        }
    }
}

} // verus!
