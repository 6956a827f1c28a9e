//! The failure taxonomy shared by every component.

use vstd::prelude::*;
use vstd::string::StringExecFns;

verus! {

/// Everything that can go wrong, with the detail text where there is one.
#[derive(Debug)]
pub enum AppError {
    /// The store rejected or could not perform an operation.
    Database(String),
    /// A setting is invalid.
    Config(String),
    /// An HTTP request failed.
    Http(String),
    /// No balance could be extracted.
    Scraping(String),
    /// The credential store failed.
    Keyring(String),
    /// A file or stream operation failed.
    Io(String),
    /// A document could not be encoded or decoded.
    Serialization(String),
    /// A notification could not be delivered.
    Notification(String),
    /// Analytics could not be computed.
    Analytics(String),
    InvalidToken,
    Timeout,
    RateLimit,
    AuthenticationFailed,
    /// The credential was rejected.
    Auth(String),
    Unknown(String),
}

pub type AppResult<T> = Result<T, AppError>;

impl AppError {
    /// The fixed text that introduces each kind of error.
    pub open spec fn prefix(self) -> Seq<char> {
        match self {
            AppError::Database(_) => "Database error: "@,
            AppError::Config(_) => "Configuration error: "@,
            AppError::Http(_) => "HTTP request error: "@,
            AppError::Scraping(_) => "Scraping error: "@,
            AppError::Keyring(_) => "Keyring error: "@,
            AppError::Io(_) => "IO error: "@,
            AppError::Serialization(_) => "Serialization error: "@,
            AppError::Notification(_) => "Notification error: "@,
            AppError::Analytics(_) => "Analytics error: "@,
            AppError::InvalidToken => "Invalid token format"@,
            AppError::Timeout => "Network timeout"@,
            AppError::RateLimit => "Rate limit exceeded"@,
            AppError::AuthenticationFailed => "Authentication failed"@,
            AppError::Auth(_) => "Auth error: "@,
            AppError::Unknown(_) => "Unknown error: "@,
        }
    }

    /// The detail carried by the error, empty for the kinds that carry none.
    pub open spec fn detail(self) -> Seq<char> {
        match self {
            AppError::Database(m) => m@,
            AppError::Config(m) => m@,
            AppError::Http(m) => m@,
            AppError::Scraping(m) => m@,
            AppError::Keyring(m) => m@,
            AppError::Io(m) => m@,
            AppError::Serialization(m) => m@,
            AppError::Notification(m) => m@,
            AppError::Analytics(m) => m@,
            AppError::Auth(m) => m@,
            AppError::Unknown(m) => m@,
            _ => Seq::empty(),
        }
    }

    /// The text shown to a person: the prefix of the kind followed by the detail.
    pub fn message(&self) -> (text: String)
        ensures
            text@ == self.prefix() + self.detail(),
    {
        match self {
            AppError::Database(m) => String::from_str("Database error: ").concat(m.as_str()),
            AppError::Config(m) => String::from_str("Configuration error: ").concat(m.as_str()),
            AppError::Http(m) => String::from_str("HTTP request error: ").concat(m.as_str()),
            AppError::Scraping(m) => String::from_str("Scraping error: ").concat(m.as_str()),
            AppError::Keyring(m) => String::from_str("Keyring error: ").concat(m.as_str()),
            AppError::Io(m) => String::from_str("IO error: ").concat(m.as_str()),
            AppError::Serialization(m) => String::from_str("Serialization error: ").concat(
                m.as_str(),
            ),
            AppError::Notification(m) => String::from_str("Notification error: ").concat(
                m.as_str(),
            ),
            AppError::Analytics(m) => String::from_str("Analytics error: ").concat(m.as_str()),
            AppError::InvalidToken => String::from_str("Invalid token format"),
            AppError::Timeout => String::from_str("Network timeout"),
            AppError::RateLimit => String::from_str("Rate limit exceeded"),
            AppError::AuthenticationFailed => String::from_str("Authentication failed"),
            AppError::Auth(m) => String::from_str("Auth error: ").concat(m.as_str()),
            AppError::Unknown(m) => String::from_str("Unknown error: ").concat(m.as_str()),
        }
    }
}

} // verus!
