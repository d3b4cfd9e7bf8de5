use crate::ids::StaticId;
use vstd::prelude::*;

verus! {

pub type Result<T> = core::result::Result<T, Error>;

/// Suffixes:
///
///  * Failure - the arguments or the current state do not allow the method to complete. It is
///    not considered a real error.
///  * Exception - something is wrong, an invalid argument or state that the algorithm expected
///    to be otherwise. It is recovered without side effects, but is logged.
///  * Error - something bad happened, like a disk error. It must cause the system to stop.
#[derive(Debug)]
pub enum Error {
    // normal failures
    NotFoundFailure,
    NotFoundStaticId(StaticId),
    InvalidStateFailure,
    InvalidArgumentFailure,
    InvalidArgumentFailureStr(String),
    Failure(String),
    ConflictFailure,
    /// a text could not be read as a value of the named kind
    ParseFailure { kind: String, value: String },
    // warning exceptions
    NotFoundException,
    ConflictException,
    InvalidStateException,
    NotImplementedException,
    Exception(String),
    // errors are problems
    Error(String),
    IOError(std::io::Error),
    /// a document could not be parsed; the parser's message
    ParserError(String),
}

impl Error {
    pub open spec fn spec_is_exception(&self) -> bool {
        match self {
            Error::NotFoundException
            | Error::ConflictException
            | Error::InvalidStateException
            | Error::NotImplementedException
            | Error::Exception(_) => true,
            _ => false,
        }
    }

    pub open spec fn spec_is_fatal(&self) -> bool {
        match self {
            Error::Error(_) | Error::IOError(_) | Error::ParserError(_) => true,
            _ => false,
        }
    }

    pub open spec fn spec_is_failure(&self) -> bool {
        !(self.spec_is_fatal() || self.spec_is_exception())
    }

    /// something is wrong
    #[verifier::when_used_as_spec(spec_is_exception)]
    pub fn is_exception(&self) -> (r: bool)
        ensures
            r == self.spec_is_exception(),
    {
        match self {
            Error::NotFoundException
            | Error::ConflictException
            | Error::InvalidStateException
            | Error::NotImplementedException
            | Error::Exception(_) => true,
            _ => false,
        }
    }

    #[verifier::when_used_as_spec(spec_is_failure)]
    pub fn is_failure(&self) -> (r: bool)
        ensures
            r == self.spec_is_failure(),
    {
        !(self.is_fatal() || self.is_exception())
    }

    #[verifier::when_used_as_spec(spec_is_fatal)]
    pub fn is_fatal(&self) -> (r: bool)
        ensures
            r == self.spec_is_fatal(),
    {
        match self {
            Error::Error(_) | Error::IOError(_) | Error::ParserError(_) => true,
            _ => false,
        }
    }

    /// The error itself, which must be a failure: a fatal error or an exception stops the
    /// program.
    fn as_failure(self) -> (r: Self)
        requires
            self.spec_is_failure(),
        ensures
            r == self,
    {
        self
    }
}

/// Results whose error is known to be a failure.
pub trait ResultError<T>: Sized {
    spec fn failure_or_ok(&self) -> bool;

    fn as_failure(self) -> (r: Result<T>)
        requires
            self.failure_or_ok(),
    ;
}

impl<T> ResultError<T> for Result<T> {
    open spec fn failure_or_ok(&self) -> bool {
        match self {
            Ok(_) => true,
            Err(e) => e.spec_is_failure(),
        }
    }

    fn as_failure(self) -> (r: Result<T>)
        ensures
            r == self,
    {
        match self {
            Ok(v) => Ok(v),
            Err(e) => Err(e.as_failure()),
        }
    }
}

/// Turn a missing value into an error.
pub trait AsResult<T>: Sized {
    spec fn value(&self) -> Option<T>;

    fn as_result(self) -> (r: Result<T>)
        ensures
            match self.value() {
                Some(v) => r == Ok::<T, Error>(v),
                None => r matches Err(Error::NotFoundFailure),
            },
    ;

    fn as_result_str(self, reason: &str) -> (r: Result<T>)
        ensures
            match self.value() {
                Some(v) => r == Ok::<T, Error>(v),
                None => r matches Err(Error::Failure(msg)) && msg@ == reason@,
            },
    ;

    fn as_result_exception(self) -> (r: Result<T>)
        ensures
            match self.value() {
                Some(v) => r == Ok::<T, Error>(v),
                None => r matches Err(Error::NotFoundException),
            },
    ;

    fn as_exception_str(self, reason: String) -> (r: Result<T>)
        ensures
            match self.value() {
                Some(v) => r == Ok::<T, Error>(v),
                None => r matches Err(Error::Exception(msg)) && msg@ == reason@,
            },
    ;
}

impl<T> AsResult<T> for Option<T> {
    open spec fn value(&self) -> Option<T> {
        *self
    }

    fn as_result(self) -> (r: Result<T>) {
        match self {
            Some(v) => Ok(v),
            None => Err(Error::NotFoundFailure),
        }
    }

    fn as_result_str(self, reason: &str) -> (r: Result<T>) {
        match self {
            Some(v) => Ok(v),
            None => Err(Error::Failure(reason.to_owned())),
        }
    }

    fn as_result_exception(self) -> (r: Result<T>) {
        match self {
            Some(v) => Ok(v),
            None => Err(Error::NotFoundException),
        }
    }

    fn as_exception_str(self, reason: String) -> (r: Result<T>) {
        match self {
            Some(v) => Ok(v),
            None => Err(Error::Exception(reason)),
        }
    }
}

} // verus!
