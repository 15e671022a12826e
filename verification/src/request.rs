//! What one HTTP exchange is made of, and how it can end.

use vstd::prelude::*;

verus! {

/// The HTTP method of a request.
#[derive(Clone, Copy, Debug, PartialEq, Eq, Structural)]
pub enum RequestType {
    Get,
    Post,
    Put,
    Delete,
}

/// The settings that travel with a request: extra headers, where a name may
/// occur more than once, and a time limit in milliseconds.
#[derive(Debug, PartialEq, Eq)]
pub struct RequestOptions {
    pub headers: Vec<(String, String)>,
    pub timeout: Option<u64>,
}

/// A request's settings as plain values.
pub struct OptionsModel {
    pub headers: Seq<(Seq<char>, Seq<char>)>,
    pub timeout: Option<u64>,
}

/// One HTTP exchange to perform. It is built once and never changed.
#[derive(Debug, PartialEq, Eq)]
pub struct Request {
    pub http_type: RequestType,
    pub uri: String,
    pub body: Vec<u8>,
    pub options: RequestOptions,
}

/// A request as plain values.
pub struct RequestModel {
    pub http_type: RequestType,
    pub uri: Seq<char>,
    pub body: Seq<u8>,
    pub options: OptionsModel,
}

/// What the server answered.
#[derive(Debug, PartialEq, Eq)]
pub struct Response {
    pub body: Vec<u8>,
    pub status_code: u16,
}

/// How a request ended.
#[derive(Debug, PartialEq, Eq)]
pub enum Outcome {
    /// The server answered.
    Success(Response),
    /// The request was given up before it finished.
    Cancelled,
    /// The time limit ran out before the server answered.
    Timeout,
    /// The exchange failed on the way; the text says how.
    TransportError(String),
}

/// The headers of an option set as plain values, in the order they were added.
pub open spec fn headers_model(headers: Seq<(String, String)>) -> Seq<(Seq<char>, Seq<char>)> {
    Seq::new(headers.len(), |i: int| (headers[i].0@, headers[i].1@))
}

impl View for RequestOptions {
    type V = OptionsModel;

    open spec fn view(&self) -> OptionsModel {
        OptionsModel { headers: headers_model(self.headers@), timeout: self.timeout }
    }
}

impl View for Request {
    type V = RequestModel;

    open spec fn view(&self) -> RequestModel {
        RequestModel {
            http_type: self.http_type,
            uri: self.uri@,
            body: self.body@,
            options: self.options@,
        }
    }
}

impl RequestOptions {
    /// An option set with the given time limit and no header.
    pub fn new(timeout: Option<u64>) -> (options: Self)
        ensures
            options@ == (OptionsModel { headers: Seq::empty(), timeout }),
    {
        let options = RequestOptions { headers: Vec::new(), timeout };
        assert(options@.headers =~= Seq::empty());
        options
    }

    /// The option set of a request that asked for none: no header, no time
    /// limit.
    pub fn empty() -> (options: Self)
        ensures
            options@ == (OptionsModel { headers: Seq::empty(), timeout: None }),
    {
        RequestOptions::new(None)
    }

    /// An independent copy: changing this option set later does not change it.
    pub fn duplicate(&self) -> (copy: Self)
        ensures
            copy@ == self@,
    {
        let mut headers: Vec<(String, String)> = Vec::new();
        let mut i: usize = 0;
        while i < self.headers.len()
            invariant
                i <= self.headers.len(),
                headers.len() == i,
                forall|j: int|
                    0 <= j < i ==> (#[trigger] headers[j]).0@ == self.headers[j].0@
                        && headers[j].1@ == self.headers[j].1@,
            decreases self.headers.len() - i,
        {
            let name = self.headers[i].0.clone();
            let value = self.headers[i].1.clone();
            headers.push((name, value));
            i = i + 1;
        }
        let copy = RequestOptions { headers, timeout: self.timeout };
        assert(copy@.headers =~= self@.headers);
        copy
    }
}

impl Outcome {
    /// How an exchange that gave no response ended: by running out of time,
    /// whatever else went wrong with it, or else by the failure that the
    /// text describes.
    pub fn from_failure(timed_out: bool, detail: String) -> (outcome: Outcome)
        ensures
            outcome == (if timed_out {
                Outcome::Timeout
            } else {
                Outcome::TransportError(detail)
            }),
    {
        if timed_out {
            Outcome::Timeout
        } else {
            Outcome::TransportError(detail)
        }
    }

    /// How an exchange ended that the server answered.
    pub fn from_response(status_code: u16, body: Vec<u8>) -> (outcome: Outcome)
        ensures
            outcome == Outcome::Success(Response { body, status_code }),
    {
        Outcome::Success(Response { body, status_code })
    }
}

} // verus!
