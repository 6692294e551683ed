use vstd::prelude::*;

verus! {

/// The kinds of failure that the capture front end tells apart.
#[derive(Clone, Copy, Debug, PartialEq, Eq, Structural)]
pub enum ErrorKind {
    /// The requested object does not exist.
    NotFound,
    /// The backend waited and nothing arrived.
    TimedOut,
    /// No new frame is available now; try again.
    WouldBlock,
    /// Any other failure.
    Other,
}

/// An error of a capture operation: its kind and a free-form description.
#[derive(Debug)]
pub struct CaptureError {
    pub kind: ErrorKind,
    pub message: String,
}

impl CaptureError {
    /// An error of the given kind with an empty description.
    pub fn from_kind(kind: ErrorKind) -> (e: CaptureError)
        ensures
            e.kind == kind,
            e.message@ == Seq::<char>::empty(),
    {
        CaptureError { kind, message: String::new() }
    }
}

/// How a timed capture reports a backend result: a success passes through, a `TimedOut`
/// error becomes a fresh `WouldBlock` error with an empty description, and any other error
/// passes through unchanged.
pub open spec fn folds_timeout<T>(r: Result<T, CaptureError>, out: Result<T, CaptureError>) -> bool {
    match r {
        Ok(v) => out == Ok::<T, CaptureError>(v),
        Err(e) => if e.kind == ErrorKind::TimedOut {
            &&& out is Err
            &&& out->Err_0.kind == ErrorKind::WouldBlock
            &&& out->Err_0.message@ == Seq::<char>::empty()
        } else {
            out == Err::<T, CaptureError>(e)
        },
    }
}

/// Folds a backend timeout into `WouldBlock`, leaving every other outcome as it is.
pub fn fold_timeout<T>(r: Result<T, CaptureError>) -> (out: Result<T, CaptureError>)
    ensures
        folds_timeout(r, out),
{
    match r {
        Ok(v) => Ok(v),
        Err(e) => {
            if e.kind == ErrorKind::TimedOut {
                Err(CaptureError::from_kind(ErrorKind::WouldBlock))
            } else {
                Err(e)
            }
        },
    }
}

} // verus!
