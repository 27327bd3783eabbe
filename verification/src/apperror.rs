use vstd::prelude::*;
use vstd::std_specs::convert::FromSpecImpl;
use vstd::string::to_string_from_display_ensures;

verus! {

#[verifier::external_type_specification]
#[verifier::external_body]
pub struct ExIoError(std::io::Error);

#[verifier::external_type_specification]
#[verifier::external_body]
pub struct ExParseIntError(std::num::ParseIntError);

/// An application error: what kind of failure it was, and its message.
#[derive(Debug)]
pub struct AppError {
    kind: String,
    message: String,
}

impl AppError {
    /// The kind of failure (`"io"` or `"parse"`).
    pub closed spec fn spec_kind(&self) -> Seq<char> {
        self.kind@
    }

    /// The message of the failure.
    pub closed spec fn spec_message(&self) -> Seq<char> {
        self.message@
    }

    /// The message of the failure, as the string held.
    pub closed spec fn message_string(&self) -> String {
        self.message
    }

    /// The kind of failure.
    pub fn kind(&self) -> (r: &str)
        ensures
            r@ == self.spec_kind(),
    {
        self.kind.as_str()
    }

    /// The message of the failure.
    pub fn message(&self) -> (r: &str)
        ensures
            r@ == self.spec_message(),
    {
        self.message.as_str()
    }

    /// The error as a line of text: `AppError: <kind> - <message>`.
    pub fn describe(&self) -> (r: String)
        ensures
            r@ == "AppError: "@ + self.spec_kind() + " - "@ + self.spec_message(),
    {
        let r = String::from_str("AppError: ");
        let r = r.concat(self.kind.as_str());
        let r = r.concat(" - ");
        r.concat(self.message.as_str())
    }
}

impl From<std::io::Error> for AppError {
    /// An error of kind `"io"` whose message is the I/O error's text.
    fn from(error: std::io::Error) -> (r: AppError)
        ensures
            r.spec_kind() == "io"@,
            to_string_from_display_ensures::<std::io::Error>(&error, r.message_string()),
    {
        AppError { kind: String::from_str("io"), message: error.to_string() }
    }
}

impl FromSpecImpl<std::io::Error> for AppError {
    /// The message is the error's display text, which the documentation does
    /// not fix, so no single value is promised.
    open spec fn obeys_from_spec() -> bool {
        false
    }

    open spec fn from_spec(v: std::io::Error) -> AppError {
        arbitrary()
    }
}

impl From<std::num::ParseIntError> for AppError {
    /// An error of kind `"parse"` whose message is the parse error's text.
    fn from(error: std::num::ParseIntError) -> (r: AppError)
        ensures
            r.spec_kind() == "parse"@,
            to_string_from_display_ensures::<std::num::ParseIntError>(&error, r.message_string()),
    {
        AppError { kind: String::from_str("parse"), message: error.to_string() }
    }
}

impl FromSpecImpl<std::num::ParseIntError> for AppError {
    /// The message is the error's display text, which the documentation does
    /// not fix, so no single value is promised.
    open spec fn obeys_from_spec() -> bool {
        false
    }

    open spec fn from_spec(v: std::num::ParseIntError) -> AppError {
        arbitrary()
    }
}

} // verus!
