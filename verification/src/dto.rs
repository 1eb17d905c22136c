//! Data-transfer envelopes shared with the surrounding service layer.
//!
//! A request wraps a payload; a response wraps a payload together with a
//! status whose empty error code means success. The contracts speak of the
//! payloads and of the status strings as mathematical values.

use vstd::prelude::*;
use vstd::string::StringExecFns;

verus! {

/// Marker bound for payloads carried by the envelopes. Every type
/// qualifies; the bound names the role a payload type plays.
pub trait DtoConstraint {}

impl<T> DtoConstraint for T {

}

/// A request envelope around a payload.
#[derive(Clone, Debug)]
pub struct DtoRequest<T> {
    data: T,
}

/// A request without a payload.
pub type BasicRequest = DtoRequest<()>;

/// A response without a payload.
pub type BasicResponse = DtoResponse<()>;

impl<T: DtoConstraint> DtoRequest<T> {
    /// The payload carried by this request.
    pub closed spec fn spec_data(self) -> T {
        self.data
    }

    /// Wraps `data` in a request envelope.
    pub fn new(data: T) -> (r: Self)
        ensures
            r.spec_data() == data,
    {
        DtoRequest { data }
    }

    /// Reads the payload.
    pub fn get_data(&self) -> (d: &T)
        ensures
            *d == self.spec_data(),
    {
        &self.data
    }

    /// Replaces the payload.
    pub fn set_data(&mut self, data: T)
        ensures
            final(self).spec_data() == data,
    {
        self.data = data
    }
}

/// The outcome part of a response: an error code and message, both empty
/// on success.
#[derive(Clone, Debug)]
pub struct ResponseStatus {
    error_code: String,
    error_message: String,
}

impl ResponseStatus {
    /// The error code as a character sequence.
    pub closed spec fn spec_error_code(self) -> Seq<char> {
        self.error_code@
    }

    /// The error message as a character sequence.
    pub closed spec fn spec_error_message(self) -> Seq<char> {
        self.error_message@
    }

    /// A response succeeded exactly when its error code is empty.
    pub fn is_success(&self) -> (r: bool)
        ensures
            r == (self.spec_error_code().len() == 0),
    {
        self.error_code.as_str().is_empty()
    }

    /// The negation of `is_success`.
    pub fn is_failure(&self) -> (r: bool)
        ensures
            r == (self.spec_error_code().len() != 0),
    {
        !self.is_success()
    }

    /// Reads the error code.
    pub fn get_error_code(&self) -> (r: &String)
        ensures
            r@ == self.spec_error_code(),
    {
        &self.error_code
    }

    /// Replaces the error code, leaving the message unchanged.
    pub fn set_error_code(&mut self, error_code: String)
        ensures
            final(self).spec_error_code() == error_code@,
            final(self).spec_error_message() == old(self).spec_error_message(),
    {
        self.error_code = error_code
    }

    /// Reads the error message.
    pub fn get_error_message(&self) -> (r: &String)
        ensures
            r@ == self.spec_error_message(),
    {
        &self.error_message
    }

    /// Replaces the error message, leaving the code unchanged.
    pub fn set_error_message(&mut self, error_message: String)
        ensures
            final(self).spec_error_code() == old(self).spec_error_code(),
            final(self).spec_error_message() == error_message@,
    {
        self.error_message = error_message
    }

    /// Renders the status as `{ error_code: "...", error_message: "..." }`.
    pub fn display_string(&self) -> (r: String)
        ensures
            r@ == "{ error_code: \""@ + self.spec_error_code() + "\", error_message: \""@
                + self.spec_error_message() + "\" }"@,
    {
        let mut s = "{ error_code: \"".to_string();
        s.append(self.error_code.as_str());
        s.append("\", error_message: \"");
        s.append(self.error_message.as_str());
        s.append("\" }");
        s
    }
}

impl Default for ResponseStatus {
    /// The successful status: both strings empty.
    fn default() -> (r: Self)
        ensures
            r.spec_error_code().len() == 0,
            r.spec_error_message().len() == 0,
    {
        ResponseStatus { error_code: String::new(), error_message: String::new() }
    }
}

/// A response envelope: a status and a payload.
#[derive(Clone, Debug)]
pub struct DtoResponse<T> {
    status: ResponseStatus,
    data: T,
}

impl<T: DtoConstraint> DtoResponse<T> {
    /// The status carried by this response.
    pub closed spec fn spec_status(self) -> ResponseStatus {
        self.status
    }

    /// The payload carried by this response.
    pub closed spec fn spec_data(self) -> T {
        self.data
    }

    /// Wraps `data` in a response envelope with a successful status.
    pub fn new(data: T) -> (r: Self)
        ensures
            r.spec_data() == data,
            r.spec_status().spec_error_code().len() == 0,
            r.spec_status().spec_error_message().len() == 0,
    {
        DtoResponse { status: ResponseStatus::default(), data }
    }

    /// Reads the status.
    pub fn get_response_status(&self) -> (r: &ResponseStatus)
        ensures
            *r == self.spec_status(),
    {
        &self.status
    }

    /// Replaces the status, leaving the payload unchanged.
    pub fn set_response_status(&mut self, response_status: ResponseStatus)
        ensures
            final(self).spec_status() == response_status,
            final(self).spec_data() == old(self).spec_data(),
    {
        self.status = response_status
    }

    /// Reads the payload.
    pub fn get_data(&self) -> (d: &T)
        ensures
            *d == self.spec_data(),
    {
        &self.data
    }

    /// Replaces the payload, leaving the status unchanged.
    pub fn set_data(&mut self, data: T)
        ensures
            final(self).spec_data() == data,
            final(self).spec_status() == old(self).spec_status(),
    {
        self.data = data
    }
}

/// The payload of an article-creation request.
#[derive(Clone, Debug)]
pub struct CreateArticleDto {
    pub title: String,
    pub body: String,
}

} // verus!
