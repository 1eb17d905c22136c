//! The business error carried across service boundaries.

use vstd::prelude::*;
use vstd::string::StringExecFns;

verus! {

/// An error with a stable code and a human-readable message.
#[derive(Clone, Debug)]
pub struct BizError {
    code: String,
    message: String,
}

impl BizError {
    /// The code as a character sequence.
    pub closed spec fn spec_code(self) -> Seq<char> {
        self.code@
    }

    /// The message as a character sequence.
    pub closed spec fn spec_message(self) -> Seq<char> {
        self.message@
    }

    /// Builds an error from a code and a message.
    pub fn new(code: &str, message: &str) -> (r: Self)
        ensures
            r.spec_code() == code@,
            r.spec_message() == message@,
    {
        BizError { code: code.to_string(), message: message.to_string() }
    }

    /// Reads the code.
    pub fn get_code(&self) -> (r: &String)
        ensures
            r@ == self.spec_code(),
    {
        &self.code
    }

    /// Reads the message.
    pub fn get_message(&self) -> (r: &String)
        ensures
            r@ == self.spec_message(),
    {
        &self.message
    }

    /// Renders the error as `{ code: "...", message: "..." }`.
    pub fn display_string(&self) -> (r: String)
        ensures
            r@ == "{ code: \""@ + self.spec_code() + "\", message: \""@ + self.spec_message()
                + "\" }"@,
    {
        let mut s = "{ code: \"".to_string();
        s.append(self.code.as_str());
        s.append("\", message: \"");
        s.append(self.message.as_str());
        s.append("\" }");
        s
    }
}

impl Default for BizError {
    /// The empty error: both strings empty.
    fn default() -> (r: Self)
        ensures
            r.spec_code().len() == 0,
            r.spec_message().len() == 0,
    {
        BizError { code: String::new(), message: String::new() }
    }
}

} // verus!
