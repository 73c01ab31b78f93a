use vstd::prelude::*;

verus! {

/// The kind of failure an operation of this library can report.
///
/// `ConnectionLost` means the work queue or the reply slot is gone, so the
/// remote end or the local connection engine is unreachable. `Io` wraps a
/// transport-level failure. `Parse` covers malformed frame bytes, bad UTF-8
/// and words that fail to convert to their expected typed field. `Status`
/// means the remote peer explicitly rejected a command with a non-"OK"
/// status string.
#[derive(Clone, Copy, Debug, PartialEq, Eq, Structural)]
pub enum ErrorKind {
    ConnectionLost,
    Io,
    Parse,
    Status,
}

/// An error returned by the client, the connection engine, or the codec.
///
/// A `Status` error carries the rejecting status string; the other kinds
/// carry at most a short description.
#[derive(Debug)]
pub struct Error {
    kind: ErrorKind,
    status: Option<String>,
    message: Option<String>,
}

impl Error {
    /// The kind this error reports.
    pub closed spec fn spec_kind(&self) -> ErrorKind {
        self.kind
    }

    /// The status string carried by a `Status` error.
    pub closed spec fn spec_status(&self) -> Option<Seq<char>> {
        match self.status {
            Some(s) => Some(s@),
            None => None,
        }
    }

    /// The description carried by the error, if any.
    pub closed spec fn spec_message(&self) -> Option<Seq<char>> {
        match self.message {
            Some(s) => Some(s@),
            None => None,
        }
    }

    /// A `Status` error carries its status string, and only a `Status`
    /// error does.
    pub open spec fn wf(&self) -> bool {
        self.spec_status() is Some <==> self.spec_kind() == ErrorKind::Status
    }

    pub fn new(kind: ErrorKind, status: Option<String>, message: Option<String>) -> (r: Error)
        requires
            (status is Some) <==> (kind == ErrorKind::Status),
        ensures
            r.spec_kind() == kind,
            r.spec_status() == match status {
                Some(s) => Some::<Seq<char>>(s@),
                None => None::<Seq<char>>,
            },
            r.spec_message() == match message {
                Some(s) => Some::<Seq<char>>(s@),
                None => None::<Seq<char>>,
            },
            r.wf(),
    {
        Error { kind, status, message }
    }

    pub fn new_connection_lost() -> (r: Error)
        ensures
            r.spec_kind() == ErrorKind::ConnectionLost,
            r.spec_status() is None,
            r.wf(),
    {
        Error::new(ErrorKind::ConnectionLost, None, None)
    }

    pub fn new_io(message: String) -> (r: Error)
        ensures
            r.spec_kind() == ErrorKind::Io,
            r.spec_status() is None,
            r.spec_message() == Some(message@),
            r.wf(),
    {
        Error::new(ErrorKind::Io, None, Some(message))
    }

    pub fn new_parse(message: String) -> (r: Error)
        ensures
            r.spec_kind() == ErrorKind::Parse,
            r.spec_status() is None,
            r.spec_message() == Some(message@),
            r.wf(),
    {
        Error::new(ErrorKind::Parse, None, Some(message))
    }

    pub fn new_status(status: String) -> (r: Error)
        ensures
            r.spec_kind() == ErrorKind::Status,
            r.spec_status() == Some(status@),
            r.wf(),
    {
        Error::new(ErrorKind::Status, Some(status), None)
    }

    pub fn kind(&self) -> (r: ErrorKind)
        ensures
            r == self.spec_kind(),
    {
        self.kind
    }

    /// The status string of a `Status` error; `None` for every other kind.
    pub fn status(&self) -> (r: Option<&str>)
        ensures
            match r {
                Some(s) => self.spec_status() == Some(s@),
                None => self.spec_status() is None,
            },
            self.wf() ==> ((r is Some) <==> (self.spec_kind() == ErrorKind::Status)),
    {
        match &self.status {
            Some(s) => Some(s.as_str()),
            None => None,
        }
    }

    /// The description carried by the error, if any.
    pub fn message(&self) -> (r: Option<&str>)
        ensures
            match r {
                Some(s) => self.spec_message() == Some(s@),
                None => self.spec_message() is None,
            },
    {
        match &self.message {
            Some(s) => Some(s.as_str()),
            None => None,
        }
    }
}

} // verus!
