use rusqlite::Error as SqlError;
use vstd::prelude::*;
use vstd::string::*;

verus! {

/// `rusqlite::Error`, whose inside is not looked at.
#[verifier::external_type_specification]
#[verifier::external_body]
pub struct ExSqlError(SqlError);

/// What went wrong: a mistake that the user can mend, or a failure inside.
#[derive(Debug, PartialEq)]
pub enum Error {
    User(User),
    Internal(Internal),
}

/// Mistakes that the user can mend.
#[derive(Debug, PartialEq)]
pub enum User {
    InvalidGrade,
    InvalidDate,
    DatabaseNotFound,
    DatabaseAlreadyExists,
    MissingArg(&'static str),
    InvalidSubcommand,
    TooManyArgs,
    /// Carries the date under which the ascent is stored.
    AscentAlreadyLogged(String),
    AscentNotFound,
}

/// Failures inside: of the database engine, or of what was read from the store.
#[derive(Debug, PartialEq)]
pub enum Internal {
    SQLRelatedIssue(SqlError),
    /// Carries the stored text that is no date.
    UnreadableDate(String),
    /// It could not be told whether the path exists.
    UnreadablePath,
}

/// What `rusqlite::Error` shows of itself through `Display`. Nothing is claimed of the
/// text.
#[verifier::external_body]
fn sql_error_text(error: &SqlError) -> (text: String) {
    error.to_string()
}

impl User {
    /// The message of the error, in words.
    pub open spec fn message_text(&self) -> Seq<char> {
        match self {
            User::InvalidGrade => "grade must be in YDS with no pluses, minuses, or slashes"@,
            User::InvalidDate => "date must be a valid date in YYYY-MM-DD format"@,
            User::DatabaseNotFound => "database not found, must be an already initialized ascent database"@,
            User::DatabaseAlreadyExists => "Cannot initialize database, already exists"@,
            User::MissingArg(arg) => "Must provide "@ + arg@,
            User::InvalidSubcommand => "Invalid subcommand"@,
            User::TooManyArgs => "Too many args provided"@,
            User::AscentAlreadyLogged(date) => "That ascent was already logged with a date of "@
                + date@,
            User::AscentNotFound => "No ascent of that route was found"@,
        }
    }

    pub fn message(&self) -> (text: String)
        ensures
            text@ == self.message_text(),
    {
        match self {
            User::InvalidGrade => String::from_str(
                "grade must be in YDS with no pluses, minuses, or slashes",
            ),
            User::InvalidDate => String::from_str(
                "date must be a valid date in YYYY-MM-DD format",
            ),
            User::DatabaseNotFound => String::from_str(
                "database not found, must be an already initialized ascent database",
            ),
            User::DatabaseAlreadyExists => String::from_str(
                "Cannot initialize database, already exists",
            ),
            User::MissingArg(arg) => String::from_str("Must provide ").concat(arg),
            User::InvalidSubcommand => String::from_str("Invalid subcommand"),
            User::TooManyArgs => String::from_str("Too many args provided"),
            User::AscentAlreadyLogged(date) => String::from_str(
                "That ascent was already logged with a date of ",
            ).concat(date.as_str()),
            User::AscentNotFound => String::from_str("No ascent of that route was found"),
        }
    }
}

impl Internal {
    /// How the message of the failure begins; for a failure of the database engine the
    /// engine's own words follow.
    pub open spec fn message_head(&self) -> Seq<char> {
        match self {
            Internal::SQLRelatedIssue(_) => "SQL-related issue: "@,
            Internal::UnreadableDate(text) => "Stored date cannot be read: "@ + text@,
            Internal::UnreadablePath => "Cannot tell whether the database exists"@,
        }
    }

    pub fn message(&self) -> (text: String)
        ensures
            self.message_head().is_prefix_of(text@),
            !(self is SQLRelatedIssue) ==> text@ == self.message_head(),
    {
        match self {
            Internal::SQLRelatedIssue(error) => {
                let tail = sql_error_text(error);
                String::from_str("SQL-related issue: ").concat(tail.as_str())
            },
            Internal::UnreadableDate(text) => String::from_str(
                "Stored date cannot be read: ",
            ).concat(text.as_str()),
            Internal::UnreadablePath => String::from_str(
                "Cannot tell whether the database exists",
            ),
        }
    }
}

impl Error {
    pub fn message(&self) -> (text: String)
        ensures
            match self {
                Error::User(e) => text@ == e.message_text(),
                Error::Internal(e) => e.message_head().is_prefix_of(text@),
            },
    {
        match self {
            Error::User(e) => e.message(),
            Error::Internal(e) => e.message(),
        }
    }
}

/// A failure of the database engine is a failure inside.
impl From<SqlError> for Error {
    fn from(error: SqlError) -> (wrapped: Error) {
        Error::Internal(Internal::SQLRelatedIssue(error))
    }
}

impl vstd::std_specs::convert::FromSpecImpl<SqlError> for Error {
    open spec fn obeys_from_spec() -> bool {
        true
    }

    open spec fn from_spec(error: SqlError) -> Error {
        Error::Internal(Internal::SQLRelatedIssue(error))
    }
}

} // verus!
