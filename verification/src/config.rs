//! Settings, checked before anything is connected to.

use vstd::prelude::*;

use crate::auth;
use crate::error;
use crate::error::{AppError, AppResult, DatabaseFailure};
use crate::text;

verus! {

/// The settings that this application owns.
#[derive(Debug, Clone, PartialEq, Eq)]
pub struct Config {
    pub database_url: String,
    /// Without slashes at its end, so that paths can be joined to it.
    pub auth_base_url: String,
}

/// Why the application did not start.
#[derive(Debug, Clone, PartialEq, Eq)]
pub enum StartupError {
    MissingEnv(&'static str),
    InvalidEnv(&'static str, &'static str),
    Database(String),
    Migration(String),
    LeptosConfig(String),
    Bind(String),
}

/// Whether a text begins with another.
pub open spec fn begins_with(s: Seq<char>, prefix: Seq<char>) -> bool {
    prefix.is_prefix_of(s)
}

/// Whether a setting is there and says something.
pub open spec fn is_set(setting: Option<Seq<char>>) -> bool {
    setting matches Some(value) && text::trimmed(value).len() > 0
}

/// The text of a setting, if there is one.
pub open spec fn setting_text(setting: Option<&str>) -> Option<Seq<char>> {
    match setting {
        Some(value) => Some(value@),
        None => None,
    }
}

/// What is wrong with the settings, the first problem first.
pub open spec fn config_problem(
    database_url: Option<Seq<char>>,
    auth_url: Option<Seq<char>>,
    output_name: Option<Seq<char>>,
) -> Option<(Seq<char>, Option<Seq<char>>)> {
    if !is_set(database_url) {
        Some(("DATABASE_URL"@, None))
    } else if !begins_with(database_url->Some_0, "postgres://"@) && !begins_with(
        database_url->Some_0,
        "postgresql://"@,
    ) {
        Some(("DATABASE_URL"@, Some("must use the postgres:// or postgresql:// scheme"@)))
    } else if !is_set(auth_url) {
        Some(("BETTER_AUTH_URL"@, None))
    } else if !begins_with(auth_url->Some_0, "http://"@) && !begins_with(
        auth_url->Some_0,
        "https://"@,
    ) {
        Some(("BETTER_AUTH_URL"@, Some("must be an absolute http:// or https:// URL"@)))
    } else if !is_set(output_name) {
        Some(("LEPTOS_OUTPUT_NAME"@, None))
    } else {
        None
    }
}

/// Whether a text begins with another.
fn starts_with(s: &str, prefix: &str) -> (r: bool)
    ensures
        r == begins_with(s@, prefix@),
{
    let whole = text::chars_of(s);
    let front = text::chars_of(prefix);
    if front.len() > whole.len() {
        return false;
    }
    let mut i: usize = 0;
    while i < front.len()
        invariant
            i <= front@.len() <= whole@.len(),
            front@ == prefix@,
            whole@ == s@,
            forall|j: int| 0 <= j < i ==> #[trigger] front@[j] == whole@[j],
        decreases front@.len() - i,
    {
        if front[i] != whole[i] {
            return false;
        }
        i = i + 1;
    }
    assert(prefix@ =~= s@.subrange(0, prefix@.len() as int));
    true
}

/// A setting that has to be there and to say something.
pub fn required_env(key: &'static str, setting: Option<&str>) -> (r: Result<String, StartupError>)
    ensures
        match r {
            Ok(value) => is_set(setting_text(setting)) && setting_text(setting) == Some(value@),
            Err(error) => !is_set(setting_text(setting)) && (
            error matches StartupError::MissingEnv(name) && name@ == key@),
        },
{
    match setting {
        Some(value) => {
            let chars = text::chars_of(value);
            if text::trim(chars.as_slice()).len() > 0 {
                Ok(value.to_owned())
            } else {
                Err(StartupError::MissingEnv(key))
            }
        },
        None => Err(StartupError::MissingEnv(key)),
    }
}

/// Checks every setting that this application owns. A typo is reported here, and
/// never surfaces as a confusing connection error.
pub fn load_config(
    database_url: Option<&str>,
    auth_url: Option<&str>,
    output_name: Option<&str>,
) -> (r: Result<Config, StartupError>)
    ensures
        match r {
            Ok(config) => {
                &&& config_problem(
                    setting_text(database_url),
                    setting_text(auth_url),
                    setting_text(output_name),
                ) is None
                &&& setting_text(database_url) == Some(config.database_url@)
                &&& config.auth_base_url@ == auth::without_end_slashes(auth_url->Some_0@)
            },
            Err(StartupError::MissingEnv(key)) => config_problem(
                setting_text(database_url),
                setting_text(auth_url),
                setting_text(output_name),
            ) == Some((key@, None::<Seq<char>>)),
            Err(StartupError::InvalidEnv(key, reason)) => config_problem(
                setting_text(database_url),
                setting_text(auth_url),
                setting_text(output_name),
            ) == Some((key@, Some(reason@))),
            Err(_) => false,
        },
{
    let database = match required_env("DATABASE_URL", database_url) {
        Ok(url) => url,
        Err(error) => {
            return Err(error);
        },
    };
    if !starts_with(database.as_str(), "postgres://") && !starts_with(
        database.as_str(),
        "postgresql://",
    ) {
        return Err(
            StartupError::InvalidEnv(
                "DATABASE_URL",
                "must use the postgres:// or postgresql:// scheme",
            ),
        );
    }
    let service = match required_env("BETTER_AUTH_URL", auth_url) {
        Ok(url) => url,
        Err(error) => {
            return Err(error);
        },
    };
    if !starts_with(service.as_str(), "http://") && !starts_with(service.as_str(), "https://") {
        return Err(
            StartupError::InvalidEnv(
                "BETTER_AUTH_URL",
                "must be an absolute http:// or https:// URL",
            ),
        );
    }
    match required_env("LEPTOS_OUTPUT_NAME", output_name) {
        Ok(_) => {},
        Err(error) => {
            return Err(error);
        },
    }
    Ok(
        Config {
            database_url: database,
            auth_base_url: auth::trim_end_slashes(service.as_str()),
        },
    )
}

impl StartupError {
    /// The message of a failed start.
    pub open spec fn message(self) -> Seq<char> {
        match self {
            StartupError::MissingEnv(key) => "missing required environment variable "@ + key@,
            StartupError::InvalidEnv(key, reason) => "invalid environment variable "@ + key@
                + ": "@ + reason@,
            StartupError::Database(cause) => "could not connect to PostgreSQL: "@ + cause@,
            StartupError::Migration(cause) => "could not apply database migrations: "@ + cause@,
            StartupError::LeptosConfig(cause) => "could not load Leptos configuration: "@ + cause@,
            StartupError::Bind(cause) => "could not bind the listen address: "@ + cause@,
        }
    }

    /// The message of a failed start.
    pub fn to_string(&self) -> (r: String)
        ensures
            r@ == self.message(),
    {
        match self {
            StartupError::MissingEnv(key) => {
                let mut r = "missing required environment variable ".to_owned();
                r.append(key);
                r
            },
            StartupError::InvalidEnv(key, reason) => {
                let mut r = "invalid environment variable ".to_owned();
                r.append(key);
                r.append(": ");
                r.append(reason);
                r
            },
            StartupError::Database(cause) => {
                let mut r = "could not connect to PostgreSQL: ".to_owned();
                r.append(cause.as_str());
                r
            },
            StartupError::Migration(cause) => {
                let mut r = "could not apply database migrations: ".to_owned();
                r.append(cause.as_str());
                r
            },
            StartupError::LeptosConfig(cause) => {
                let mut r = "could not load Leptos configuration: ".to_owned();
                r.append(cause.as_str());
                r
            },
            StartupError::Bind(cause) => {
                let mut r = "could not bind the listen address: ".to_owned();
                r.append(cause.as_str());
                r
            },
        }
    }
}

// ---------------------------------------------------------------------------
// Readiness
// ---------------------------------------------------------------------------

/// The name under which this service reports itself.
pub const SERVICE_NAME: &'static str = "orders-and-settlements";

/// The body of a healthy readiness probe.
#[derive(Debug, Clone, Copy, PartialEq, Eq)]
pub struct HealthBody {
    pub status: &'static str,
    pub service: &'static str,
    pub database: &'static str,
}

/// Healthy exactly when the database answered. One that cannot be asked is
/// unavailable, whatever the reason.
pub fn health(database_answered: bool) -> (r: AppResult<HealthBody>)
    ensures
        match r {
            Ok(body) => database_answered && body.status@ == "ok"@ && body.service@ == SERVICE_NAME@
                && body.database@ == "up"@,
            Err(error) => !database_answered && error@ == error::database_error(
                DatabaseFailure::Unreachable,
            ),
        },
{
    if database_answered {
        Ok(HealthBody { status: "ok", service: SERVICE_NAME, database: "up" })
    } else {
        Err(AppError::from_database(DatabaseFailure::Unreachable))
    }
}

// ---------------------------------------------------------------------------
// Laws
// ---------------------------------------------------------------------------

/// The settings are in order exactly if the database has an address of PostgreSQL,
/// the authentication service one of the web, and the browser bundle a name.
pub proof fn law_which_settings_are_in_order(
    database_url: Seq<char>,
    auth_url: Seq<char>,
    output_name: Seq<char>,
)
    ensures
        config_problem(Some(database_url), Some(auth_url), Some(output_name)) is None <==> {
            &&& "postgres://"@.is_prefix_of(database_url) || "postgresql://"@.is_prefix_of(
                database_url,
            )
            &&& "http://"@.is_prefix_of(auth_url) || "https://"@.is_prefix_of(auth_url)
            &&& text::trimmed(database_url).len() > 0
            &&& text::trimmed(auth_url).len() > 0
            &&& text::trimmed(output_name).len() > 0
        },
        config_problem(None, Some(auth_url), Some(output_name)) matches Some(problem) && problem.0
            == "DATABASE_URL"@,
        config_problem(Some(database_url), None, Some(output_name)) is Some,
        config_problem(Some(database_url), Some(auth_url), None) is Some,
{
}

} // verus!
