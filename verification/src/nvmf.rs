//! The NVMe-oF front end of a nexus: the record of a device that was
//! shared over the fabric, and what can go wrong when sharing it.
//!
//! Sharing and unsharing are done by the target itself. What is decided
//! here is what their outcome means.

use vstd::prelude::*;
use vstd::string::StringExecFns;

verus! {

/// Why a device could not be exported.
#[derive(Debug, PartialEq, Eq)]
pub enum NexusNvmfError {
    /// There is no device of that name.
    BdevNotFound { dev: String },
    /// The target refused to share the device.
    CreateTargetFailed { dev: String, err: String },
}

/// A [`NexusNvmfError`] with its texts as sequences of characters.
pub enum NvmfErrorView {
    BdevNotFound { dev: Seq<char> },
    CreateTargetFailed { dev: Seq<char>, err: Seq<char> },
}

impl View for NexusNvmfError {
    type V = NvmfErrorView;

    open spec fn view(&self) -> NvmfErrorView {
        match *self {
            NexusNvmfError::BdevNotFound { dev } => NvmfErrorView::BdevNotFound { dev: dev@ },
            NexusNvmfError::CreateTargetFailed { dev, err } => NvmfErrorView::CreateTargetFailed {
                dev: dev@,
                err: err@,
            },
        }
    }
}

impl NvmfErrorView {
    /// The error in words.
    pub open spec fn message(self) -> Seq<char> {
        match self {
            NvmfErrorView::BdevNotFound { dev } => "Bdev not found "@ + dev,
            NvmfErrorView::CreateTargetFailed { dev, err } =>
                "Failed to create iscsi target for bdev uuid "@ + dev + ", error "@ + err,
        }
    }
}

impl NexusNvmfError {
    /// The error in words.
    pub fn message(&self) -> (text: String)
        ensures
            text@ == self@.message(),
    {
        match self {
            NexusNvmfError::BdevNotFound { dev } => {
                "Bdev not found ".to_owned().concat(dev.as_str())
            },
            NexusNvmfError::CreateTargetFailed { dev, err } => {
                "Failed to create iscsi target for bdev uuid ".to_owned().concat(
                    dev.as_str(),
                ).concat(", error ").concat(err.as_str())
            },
        }
    }
}

/// How the attempt to share a device over the fabric ended.
#[derive(Debug, PartialEq, Eq)]
pub enum ShareOutcome {
    /// There was no device to share, so the target was never asked.
    NoDevice,
    /// The target shares the device.
    Shared,
    /// The target refused, for the reason given.
    Failed(String),
}

/// Nvmf target representation.
#[derive(Debug, PartialEq, Eq)]
pub struct NexusNvmfTarget {
    uuid: String,
}

impl View for NexusNvmfTarget {
    type V = Seq<char>;

    closed spec fn view(&self) -> Seq<char> {
        self.uuid@
    }
}

impl NexusNvmfTarget {
    /// The record of the device `my_uuid` having been shared, given how
    /// sharing it ended. There is a target only if the device was there
    /// and the target took it.
    pub fn create(my_uuid: &str, outcome: ShareOutcome) -> (target: Result<
        NexusNvmfTarget,
        NexusNvmfError,
    >)
        ensures
            match outcome {
                ShareOutcome::Shared => target is Ok && target->Ok_0@ == my_uuid@,
                ShareOutcome::NoDevice => target is Err && target->Err_0@
                    == (NvmfErrorView::CreateTargetFailed {
                    dev: my_uuid@,
                    err: "failed to find"@,
                }),
                ShareOutcome::Failed(cause) => target is Err && target->Err_0@
                    == (NvmfErrorView::CreateTargetFailed { dev: my_uuid@, err: cause@ }),
            },
    {
        match outcome {
            ShareOutcome::NoDevice => Err(
                NexusNvmfError::CreateTargetFailed {
                    dev: my_uuid.to_owned(),
                    err: "failed to find".to_owned(),
                },
            ),
            ShareOutcome::Shared => Ok(NexusNvmfTarget { uuid: my_uuid.to_owned() }),
            ShareOutcome::Failed(cause) => Err(
                NexusNvmfError::CreateTargetFailed { dev: my_uuid.to_owned(), err: cause },
            ),
        }
    }

    /// Give the target up. Returns the uuid of the device that is to be
    /// unshared.
    pub fn destroy(self) -> (uuid: String)
        ensures
            uuid@ == self@,
    {
        self.uuid
    }

    /// The uuid of the device that is shared.
    pub fn uuid(&self) -> (uuid: &String)
        ensures
            uuid@ == self@,
    {
        &self.uuid
    }

    /// The URI under which the device can be reached, given what the
    /// target answered when asked for the URI of this uuid. A target that
    /// knows none yields the text `HAHA NO`.
    pub fn as_uri(&self, uri: Option<String>) -> (text: String)
        ensures
            text@ == match uri {
                Some(uri) => uri@,
                None => "HAHA NO"@,
            },
    {
        match uri {
            Some(uri) => uri,
            None => "HAHA NO".to_owned(),
        }
    }
}

} // verus!
