//! Backend faults and the caller-facing error taxonomy they map to.
use vstd::prelude::*;
use vstd::string::StringExecFns;

verus! {

/// The code of a fault reported by the storage backend.
#[derive(Clone, Copy, Debug, PartialEq, Eq, Structural)]
pub enum FaultCode {
    InvalidUri,
    InvalidPath,
    InvalidArgument,
    NotFound,
    AlreadyExists,
    IsRoot,
    IsDir,
    IsFile,
    /// The target is not a directory where one is needed.
    NotDir,
    /// A parent along the path is not a directory.
    ParentNotDir,
    NotFile,
    NotEmpty,
    ReadOnly,
    Encode,
    Other,
}

/// A fault reported by the storage backend, with the backend's own
/// description of it.
#[derive(Clone, Debug)]
pub struct Fault {
    pub code: FaultCode,
    pub description: String,
}

/// The category of an error as the caller sees it.
#[derive(Clone, Copy, Debug, PartialEq, Eq, Structural)]
pub enum ErrorKind {
    /// An operation on a closed handle.
    Closed,
    /// An operation that the handle's mode does not allow.
    Unsupported,
    InvalidArgument,
    NotFound,
    AlreadyExists,
    IsADirectory,
    NotADirectory,
    DirectoryNotEmpty,
    ReadOnly,
    DecodeError,
    /// Removing the root, or creating something as the root.
    RootViolation,
    Internal,
}

/// A categorized error with a human-readable message.
#[derive(Clone, Debug)]
pub struct Error {
    pub kind: ErrorKind,
    pub message: String,
}

impl Error {
    pub fn new(kind: ErrorKind, message: &str) -> (e: Error)
        ensures
            e.kind == kind,
            e.message@ == message@,
    {
        Error { kind, message: message.to_owned() }
    }

    /// The error of an operation on a closed handle.
    pub fn closed() -> (e: Error)
        ensures
            e.kind == ErrorKind::Closed,
            e.message@ == closed_message(),
    {
        Error::new(ErrorKind::Closed, "I/O operation on closed file.")
    }
}

pub open spec fn closed_message() -> Seq<char> {
    "I/O operation on closed file."@
}

/// The category that a backend fault surfaces as.
pub open spec fn kind_of(code: FaultCode) -> ErrorKind {
    match code {
        FaultCode::InvalidUri => ErrorKind::InvalidArgument,
        FaultCode::InvalidPath => ErrorKind::InvalidArgument,
        FaultCode::InvalidArgument => ErrorKind::Internal,
        FaultCode::NotFound => ErrorKind::NotFound,
        FaultCode::AlreadyExists => ErrorKind::AlreadyExists,
        FaultCode::IsRoot => ErrorKind::RootViolation,
        FaultCode::IsDir => ErrorKind::IsADirectory,
        FaultCode::IsFile => ErrorKind::NotADirectory,
        FaultCode::NotDir => ErrorKind::NotADirectory,
        // a parent that is not a directory means the path does not resolve
        FaultCode::ParentNotDir => ErrorKind::NotFound,
        FaultCode::NotFile => ErrorKind::IsADirectory,
        FaultCode::NotEmpty => ErrorKind::DirectoryNotEmpty,
        FaultCode::ReadOnly => ErrorKind::ReadOnly,
        FaultCode::Encode => ErrorKind::DecodeError,
        FaultCode::Other => ErrorKind::Internal,
    }
}

/// Whether a fault of this code reports the backend's description rather
/// than the path it concerns.
pub open spec fn describes_itself(code: FaultCode) -> bool {
    code == FaultCode::InvalidUri || code == FaultCode::InvalidArgument || code == FaultCode::Encode
        || code == FaultCode::Other
}

/// A backend fault together with the path of the operation, when the
/// caller knows it.
#[derive(Clone, Debug)]
pub struct FSError {
    pub fault: Fault,
    pub path: Option<String>,
}

impl FSError {
    pub open spec fn context(&self) -> Seq<char> {
        match self.path {
            Some(p) => p@,
            None => self.fault.description@,
        }
    }

    /// The message of the error this fault surfaces as.
    pub open spec fn message(&self) -> Seq<char> {
        if describes_itself(self.fault.code) {
            self.fault.description@
        } else {
            self.context()
        }
    }

    pub fn with_path(fault: Fault, path: String) -> (e: FSError)
        ensures
            e.fault == fault,
            e.path == Some(path),
    {
        FSError { fault, path: Some(path) }
    }

    /// Maps the fault to its caller-facing category. The path, when there
    /// is one, is attached verbatim; otherwise the backend's description.
    pub fn categorize(self) -> (e: Error)
        ensures
            e.kind == kind_of(self.fault.code),
            e.message@ == self.message(),
    {
        let kind = match self.fault.code {
            FaultCode::InvalidUri => ErrorKind::InvalidArgument,
            FaultCode::InvalidPath => ErrorKind::InvalidArgument,
            FaultCode::InvalidArgument => ErrorKind::Internal,
            FaultCode::NotFound => ErrorKind::NotFound,
            FaultCode::AlreadyExists => ErrorKind::AlreadyExists,
            FaultCode::IsRoot => ErrorKind::RootViolation,
            FaultCode::IsDir => ErrorKind::IsADirectory,
            FaultCode::IsFile => ErrorKind::NotADirectory,
            FaultCode::NotDir => ErrorKind::NotADirectory,
            FaultCode::ParentNotDir => ErrorKind::NotFound,
            FaultCode::NotFile => ErrorKind::IsADirectory,
            FaultCode::NotEmpty => ErrorKind::DirectoryNotEmpty,
            FaultCode::ReadOnly => ErrorKind::ReadOnly,
            FaultCode::Encode => ErrorKind::DecodeError,
            FaultCode::Other => ErrorKind::Internal,
        };
        let own = match self.fault.code {
            FaultCode::InvalidUri | FaultCode::InvalidArgument | FaultCode::Encode
            | FaultCode::Other => true,
            _ => false,
        };
        let message = if own {
            self.fault.description
        } else {
            match self.path {
                Some(p) => p,
                None => self.fault.description,
            }
        };
        Error { kind, message }
    }
}

impl From<Fault> for FSError {
    fn from(fault: Fault) -> (e: FSError) {
        FSError { fault, path: None }
    }
}

impl vstd::std_specs::convert::FromSpecImpl<Fault> for FSError {
    open spec fn obeys_from_spec() -> bool {
        true
    }

    open spec fn from_spec(fault: Fault) -> FSError {
        FSError { fault, path: None }
    }
}

/// The decimal digits of `n`, most significant first.
pub open spec fn decimal(n: nat) -> Seq<char>
    decreases n,
{
    if n < 10 {
        seq![digit_char(n)]
    } else {
        decimal(n / 10).push(digit_char(n % 10))
    }
}

pub open spec fn digit_char(d: nat) -> char {
    if d == 0 { '0' }
    else if d == 1 { '1' }
    else if d == 2 { '2' }
    else if d == 3 { '3' }
    else if d == 4 { '4' }
    else if d == 5 { '5' }
    else if d == 6 { '6' }
    else if d == 7 { '7' }
    else if d == 8 { '8' }
    else { '9' }
}

fn digit_str(d: u64) -> (s: &'static str)
    requires
        d < 10,
    ensures
        s@ == seq![digit_char(d as nat)],
{
    proof {
        reveal_strlit("0");
        reveal_strlit("1");
        reveal_strlit("2");
        reveal_strlit("3");
        reveal_strlit("4");
        reveal_strlit("5");
        reveal_strlit("6");
        reveal_strlit("7");
        reveal_strlit("8");
        reveal_strlit("9");
    }
    let s = if d == 0 { "0" }
    else if d == 1 { "1" }
    else if d == 2 { "2" }
    else if d == 3 { "3" }
    else if d == 4 { "4" }
    else if d == 5 { "5" }
    else if d == 6 { "6" }
    else if d == 7 { "7" }
    else if d == 8 { "8" }
    else { "9" };
    assert(s@ =~= seq![digit_char(d as nat)]);
    s
}

/// Appends the decimal form of `n` to `s`.
pub fn push_decimal(s: &mut String, n: u64)
    ensures
        final(s)@ == old(s)@ + decimal(n as nat),
    decreases n,
{
    if n >= 10 {
        push_decimal(s, n / 10);
    }
    s.append(digit_str(n % 10));
    assert(s@ =~= old(s)@ + decimal(n as nat)) by {
        if n >= 10 {
            assert(decimal(n as nat) == decimal((n / 10) as nat).push(digit_char((n % 10) as nat)));
        }
    }
}

} // verus!
