//! What can go wrong while signing in and fetching reports.
use vstd::prelude::*;
use vstd::string::StringExecFns;

verus! {

/// A failure of the driven browser, reduced to the text it reports.
#[derive(Debug)]
pub enum HeadlessError {
    /// A failure that the browser driver reported as bare text.
    String(String),
    /// The text of a failure that the browser driver raised as an error value.
    Wrapped(String),
}

impl HeadlessError {
    /// The text carried by either variant.
    pub open spec fn text(&self) -> Seq<char> {
        match self {
            HeadlessError::String(s) => s@,
            HeadlessError::Wrapped(s) => s@,
        }
    }

    /// The failure as shown to the user: the carried text, with nothing added.
    pub fn message(&self) -> (shown: String)
        ensures
            shown@ == self.text(),
    {
        match self {
            HeadlessError::String(s) => s.clone(),
            HeadlessError::Wrapped(s) => s.clone(),
        }
    }
}

/// Any failure of a report call.
#[derive(Debug)]
pub enum Error {
    /// The request failed in transit or came back with a failure status; the
    /// text names the address and the status or cause.
    Http(String),
    /// A step of driving the browser failed.
    Headless(HeadlessError),
    /// Data that was read could not be used: a body that does not decode, or a
    /// sign-in that captured no headers.
    Io(String),
}

impl Error {
    /// What is shown to the user for this failure.
    pub open spec fn text(&self) -> Seq<char> {
        match self {
            Error::Http(cause) => "Error making HTTP request: "@ + cause@,
            Error::Headless(cause) => "Error in headless browser: "@ + cause.text(),
            Error::Io(cause) => "Error while doing IO: "@ + cause@,
        }
    }

    /// The failure as shown to the user: what kind of failure it is, then its
    /// cause.
    pub fn message(&self) -> (shown: String)
        ensures
            shown@ == self.text(),
    {
        match self {
            Error::Http(cause) => {
                let mut shown = String::from_str("Error making HTTP request: ");
                shown.append(cause.as_str());
                shown
            },
            Error::Headless(cause) => {
                let mut shown = String::from_str("Error in headless browser: ");
                let inner = cause.message();
                shown.append(inner.as_str());
                shown
            },
            Error::Io(cause) => {
                let mut shown = String::from_str("Error while doing IO: ");
                shown.append(cause.as_str());
                shown
            },
        }
    }
}

} // verus!
