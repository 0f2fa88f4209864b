//! Configuration as plain values, and the runtime environment name.
//!
//! Reading configuration files and environment variables is an edge the
//! library does not touch; these types carry what was read.

use vstd::prelude::*;
use crate::email::{is_email, Email};
use crate::text::push_str;

verus! {

/// Everything the programs are configured with.
#[derive(Debug)]
pub struct Settings {
    pub database: DatabaseSettings,
    pub application: ApplicationSettings,
    pub email_client: EmailClientSettings,
    pub qr_client: QRClientSettings,
    pub console_cli: ConsoleClientSettings,
}

/// Where the command-line client finds the web server.
#[derive(Debug)]
pub struct ConsoleClientSettings {
    pub web_url: String,
}

/// Where the web server listens.
#[derive(Debug)]
pub struct ApplicationSettings {
    pub port: u16,
    pub host: String,
}

/// How the database is reached.
#[derive(Debug)]
pub struct DatabaseSettings {
    pub username: String,
    pub password: String,
    pub port: u16,
    pub host: String,
    pub database_name: String,
    pub require_ssl: bool,
}

/// How the email service is reached.
#[derive(Debug)]
pub struct EmailClientSettings {
    pub base_url: String,
    pub sender_email: String,
    pub authorization_token: String,
    pub timeout_milliseconds: u64,
}

/// How the shortening service is reached and where QR images land.
#[derive(Debug)]
pub struct QRClientSettings {
    pub api_url: String,
    pub api_key: String,
    pub base_url: String,
    pub base_image_path: String,
    pub timeout_milliseconds: u64,
}

impl QRClientSettings {
    /// The configured client timeout, in milliseconds.
    pub fn timeout(&self) -> (r: u64)
        ensures
            r == self.timeout_milliseconds,
    {
        self.timeout_milliseconds
    }
}

impl EmailClientSettings {
    /// The configured sender, validated as an address.
    pub fn sender(&self) -> (r: Result<Email, String>)
        ensures
            r is Ok <==> is_email(self.sender_email@),
            r is Ok ==> r->Ok_0@ == self.sender_email@,
    {
        Email::parse(self.sender_email.clone())
    }

    /// The configured client timeout, in milliseconds.
    pub fn timeout(&self) -> (r: u64)
        ensures
            r == self.timeout_milliseconds,
    {
        self.timeout_milliseconds
    }
}

/// The runtime environment a deployment runs under; it picks the
/// configuration file.
#[derive(Debug)]
pub enum Environment {
    Development,
    Production,
    Local,
}

/// The case-folded text of a name; names what `str::to_lowercase` returns,
/// a function of the characters alone.
pub uninterp spec fn lower_of(s: Seq<char>) -> Seq<char>;

/// Relies on `str::to_lowercase`: the folded text depends on the characters
/// alone.
#[verifier::external_body]
fn to_lowercase(s: &str) -> (r: String)
    ensures
        r@ == lower_of(s@),
{
    s.to_lowercase()
}

impl Environment {
    /// The environment's configuration-file name.
    pub fn as_str(&self) -> (r: &str)
        ensures
            r@ == match *self {
                Environment::Development => "development"@,
                Environment::Production => "production"@,
                Environment::Local => "local"@,
            },
    {
        match self {
            Environment::Development => "development",
            Environment::Production => "production",
            Environment::Local => "local",
        }
    }

    /// Reads an environment from its name, however it was capitalized; any
    /// other name is refused, named inside the error message.
    pub fn try_from(value: String) -> (r: Result<Environment, String>)
        ensures
            r is Ok <==> (lower_of(value@) == "development"@
                || lower_of(value@) == "production"@
                || lower_of(value@) == "local"@),
            r is Ok ==> (match r->Ok_0 {
                Environment::Development => lower_of(value@) == "development"@,
                Environment::Production => lower_of(value@) == "production"@,
                Environment::Local => lower_of(value@) == "local"@,
            }),
            r is Err ==> r->Err_0@ == lower_of(value@)
                + " is not a supported environment. Use either `development` or `production`."@,
    {
        let lowered = to_lowercase(value.as_str());
        if lowered == String::from_str("development") {
            Ok(Environment::Development)
        } else if lowered == String::from_str("production") {
            Ok(Environment::Production)
        } else if lowered == String::from_str("local") {
            Ok(Environment::Local)
        } else {
            let mut msg = lowered;
            push_str(
                &mut msg,
                " is not a supported environment. Use either `development` or `production`.",
            );
            Err(msg)
        }
    }
}

} // verus!
