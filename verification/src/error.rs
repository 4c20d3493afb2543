//! What a membership operation can fail with.

use vstd::prelude::*;

verus! {

/// The errors that the controller and its children report.
///
/// The variants with a cause carry the words of a collaborator (the device
/// registry or a driver) unchanged; the controller never reads them.
#[derive(Debug, PartialEq, Eq)]
pub enum Error {
    /// No child of that name belongs to the nexus.
    NotFound,
    /// The nexus cannot be opened yet: it has no children, a child's device
    /// has not been resolved, or a child could not be opened.
    Incomplete,
    /// The operation does not apply to the state the nexus or the child is
    /// in; the text says why.
    Invalid(String),
    /// Something that should hold did not.
    Internal(String),
    /// The device's block size or capacity does not suit the nexus.
    GeometryMismatch,
    /// The child is open already.
    AlreadyOpen,
    /// The child's device has not been resolved, or is no longer there.
    DeviceGone,
    /// The registry could not create the backing device.
    DeviceCreate(String),
    /// The driver could not open the device.
    OpenFailed(String),
    /// The driver could not close the device.
    CloseFailed(String),
    /// The registry could not destroy the backing device.
    DestroyFailed(String),
    /// The label of a child could not be read.
    LabelProbeFailed,
}

/// An [`Error`] with the text of each cause as a sequence of characters.
pub enum ErrorView {
    NotFound,
    Incomplete,
    Invalid(Seq<char>),
    Internal(Seq<char>),
    GeometryMismatch,
    AlreadyOpen,
    DeviceGone,
    DeviceCreate(Seq<char>),
    OpenFailed(Seq<char>),
    CloseFailed(Seq<char>),
    DestroyFailed(Seq<char>),
    LabelProbeFailed,
}

impl View for Error {
    type V = ErrorView;

    open spec fn view(&self) -> ErrorView {
        match *self {
            Error::NotFound => ErrorView::NotFound,
            Error::Incomplete => ErrorView::Incomplete,
            Error::Invalid(reason) => ErrorView::Invalid(reason@),
            Error::Internal(msg) => ErrorView::Internal(msg@),
            Error::GeometryMismatch => ErrorView::GeometryMismatch,
            Error::AlreadyOpen => ErrorView::AlreadyOpen,
            Error::DeviceGone => ErrorView::DeviceGone,
            Error::DeviceCreate(cause) => ErrorView::DeviceCreate(cause@),
            Error::OpenFailed(cause) => ErrorView::OpenFailed(cause@),
            Error::CloseFailed(cause) => ErrorView::CloseFailed(cause@),
            Error::DestroyFailed(cause) => ErrorView::DestroyFailed(cause@),
            Error::LabelProbeFailed => ErrorView::LabelProbeFailed,
        }
    }
}

impl Error {
    /// An [`Error::Invalid`] with the given reason.
    pub fn invalid(reason: &str) -> (e: Error)
        ensures
            e@ == ErrorView::Invalid(reason@),
    {
        Error::Invalid(reason.to_owned())
    }

    /// An [`Error::Internal`] with the given message.
    pub fn internal(msg: &str) -> (e: Error)
        ensures
            e@ == ErrorView::Internal(msg@),
    {
        Error::Internal(msg.to_owned())
    }
}

impl Clone for Error {
    fn clone(&self) -> (e: Error)
        ensures
            e == *self,
    {
        match self {
            Error::NotFound => Error::NotFound,
            Error::Incomplete => Error::Incomplete,
            Error::Invalid(reason) => Error::Invalid(reason.clone()),
            Error::Internal(msg) => Error::Internal(msg.clone()),
            Error::GeometryMismatch => Error::GeometryMismatch,
            Error::AlreadyOpen => Error::AlreadyOpen,
            Error::DeviceGone => Error::DeviceGone,
            Error::DeviceCreate(cause) => Error::DeviceCreate(cause.clone()),
            Error::OpenFailed(cause) => Error::OpenFailed(cause.clone()),
            Error::CloseFailed(cause) => Error::CloseFailed(cause.clone()),
            Error::DestroyFailed(cause) => Error::DestroyFailed(cause.clone()),
            Error::LabelProbeFailed => Error::LabelProbeFailed,
        }
    }
}

} // verus!
