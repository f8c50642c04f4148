//! The uniform error value that every collaborator failure is
//! converted into: a short code and a human-readable reason joined
//! into one message, optionally prefixed with caller-supplied context.

use vstd::prelude::*;
use vstd::string::StringExecFns;

verus! {

/// A uniform error wrapping a single message string. Failures of the
/// storage directory are converted into this type at the boundary and
/// propagated without local recovery.
#[derive(Debug)]
pub struct S3ExampleError {
    text: String,
}

impl View for S3ExampleError {
    type V = Seq<char>;

    closed spec fn view(&self) -> Seq<char> {
        self.text@
    }
}

/// The message built from optional error metadata: the code, or
/// "unknown code" when absent, then ": ", then the reason, or
/// "missing reason" when absent.
pub open spec fn metadata_text(code: Option<Seq<char>>, message: Option<Seq<char>>) -> Seq<char> {
    (match code {
        Some(c) => c,
        None => "unknown code"@,
    }) + ": "@ + (match message {
        Some(m) => m,
        None => "missing reason"@,
    })
}

impl S3ExampleError {
    /// Wraps an already-formatted message.
    pub fn new(value: String) -> (r: Self)
        ensures
            r@ == value@,
    {
        S3ExampleError { text: value }
    }

    /// Prepends a context string to the existing message, separated by ": ".
    pub fn add_message(self, message: String) -> (r: Self)
        ensures
            r@ == message@ + ": "@ + self@,
    {
        let mut t = message;
        t.append(": ");
        t.append(self.text.as_str());
        S3ExampleError { text: t }
    }

    /// Builds the uniform error from the optional code and reason that a
    /// failed collaborator call reports.
    pub fn from_metadata(code: Option<String>, message: Option<String>) -> (r: Self)
        ensures
            r@ == metadata_text(code.deep_view(), message.deep_view()),
    {
        let mut t = match code {
            Some(c) => c,
            None => String::from_str("unknown code"),
        };
        t.append(": ");
        match message {
            Some(m) => t.append(m.as_str()),
            None => t.append("missing reason"),
        }
        S3ExampleError { text: t }
    }

    /// The full message text of the error.
    pub fn message(&self) -> (r: &str)
        ensures
            r@ == self@,
    {
        self.text.as_str()
    }
}

} // verus!
