//! One backing device inside a nexus, and the states it moves through.

use crate::device::{DeviceHandle, DeviceView};
use crate::error::{Error, ErrorView};
use crate::label::NexusLabel;
use vstd::prelude::*;

verus! {

/// Where a child stands in its life.
#[derive(Clone, Copy, Debug, PartialEq, Eq, Structural)]
pub enum ChildState {
    /// Registered, never opened.
    Init,
    /// The geometry of its device does not suit the nexus.
    ConfigInvalid,
    /// Open: the only state in which a child takes part in I/O.
    Open,
    /// Closed, and free to be opened again or removed.
    Closed,
    /// Taken out of service, by an operator or because its contents cannot
    /// be trusted.
    Faulted,
}

/// A child of a nexus.
#[derive(Debug, PartialEq, Eq)]
pub struct NexusChild {
    /// The URI the child was registered with.
    pub name: String,
    /// Name of the nexus the child belongs to.
    pub parent: String,
    /// The backing device, once it has been resolved.
    pub bdev: Option<DeviceHandle>,
    /// Where the child stands.
    pub state: ChildState,
}

/// A [`NexusChild`] as the contracts see it.
pub struct ChildView {
    pub name: Seq<char>,
    pub parent: Seq<char>,
    pub device: Option<DeviceView>,
    pub state: ChildState,
}

impl ChildView {
    /// An open child has a device.
    pub open spec fn wf(self) -> bool {
        self.state == ChildState::Open ==> self.device is Some
    }

    /// Whether the child serves I/O: it is open, on a device.
    pub open spec fn in_service(self) -> bool {
        self.state == ChildState::Open && self.device is Some
    }

    /// Why the child cannot be opened for a nexus of `min_size` bytes, or
    /// `None` if it can.
    pub open spec fn open_error(self, min_size: u64) -> Option<ErrorView> {
        if self.state == ChildState::Open {
            Some(ErrorView::AlreadyOpen)
        } else if self.state != ChildState::Init && self.state != ChildState::Closed {
            Some(ErrorView::Invalid("child can be opened only when new or closed"@))
        } else if self.device is None {
            Some(ErrorView::DeviceGone)
        } else if !self.device->Some_0.fits(min_size) {
            Some(ErrorView::GeometryMismatch)
        } else {
            None
        }
    }

    /// Whether the child can be opened for a nexus of `min_size` bytes.
    pub open spec fn can_open(self, min_size: u64) -> bool {
        self.open_error(min_size) is None
    }

    /// The same child in another state.
    pub open spec fn with_state(self, state: ChildState) -> ChildView {
        ChildView { state, ..self }
    }

    /// The same child with `device` as its backing device.
    pub open spec fn with_device(self, device: DeviceView) -> ChildView {
        ChildView { device: Some(device), ..self }
    }

    /// The label that counts as read from the child: the one that was read,
    /// provided the child is open and the read succeeded.
    pub open spec fn probed(self, read: Result<NexusLabel, Error>) -> Option<NexusLabel> {
        if self.state == ChildState::Open && read is Ok {
            Some(read->Ok_0)
        } else {
            None
        }
    }
}

impl View for NexusChild {
    type V = ChildView;

    open spec fn view(&self) -> ChildView {
        ChildView {
            name: self.name@,
            parent: self.parent@,
            device: match self.bdev {
                Some(device) => Some(device@),
                None => None,
            },
            state: self.state,
        }
    }
}

impl NexusChild {
    /// A child called `name` of the nexus `parent`, not opened yet.
    pub fn new(name: String, parent: String, bdev: Option<DeviceHandle>) -> (child: NexusChild)
        ensures
            child.name == name,
            child.parent == parent,
            child.bdev == bdev,
            child.state == ChildState::Init,
            child@.wf(),
    {
        NexusChild { name, parent, bdev, state: ChildState::Init }
    }

    /// Open the child for a nexus of `min_size` bytes and return its name.
    ///
    /// Only a new or closed child whose device is resolved and large enough
    /// can be opened. A child that cannot be opened is left as it was.
    pub fn open(&mut self, min_size: u64) -> (opened: Result<String, Error>)
        ensures
            opened is Ok <==> old(self)@.can_open(min_size),
            match opened {
                Ok(name) => {
                    &&& name@ == old(self)@.name
                    &&& final(self)@ == old(self)@.with_state(ChildState::Open)
                    &&& final(self)@.wf()
                },
                Err(e) => {
                    &&& old(self)@.open_error(min_size) == Some(e@)
                    &&& *final(self) == *old(self)
                },
            },
    {
        match self.state {
            ChildState::Open => {
                return Err(Error::AlreadyOpen);
            },
            ChildState::Init | ChildState::Closed => {},
            _ => {
                return Err(Error::invalid("child can be opened only when new or closed"));
            },
        }
        let enough = match &self.bdev {
            None => {
                return Err(Error::DeviceGone);
            },
            Some(device) => device.fits(min_size),
        };
        if !enough {
            return Err(Error::GeometryMismatch);
        }
        self.state = ChildState::Open;
        Ok(self.name.clone())
    }

    /// Close the child, whatever state it is in. The device stays resolved,
    /// so that the child can be opened again.
    pub fn close(&mut self)
        ensures
            final(self)@ == old(self)@.with_state(ChildState::Closed),
            final(self)@.wf(),
    {
        self.state = ChildState::Closed;
    }

    /// Take the child out of service.
    pub fn fault(&mut self)
        ensures
            final(self)@ == old(self)@.with_state(ChildState::Faulted),
            final(self)@.wf(),
    {
        self.state = ChildState::Faulted;
    }

    /// The URI of the backing device that is to be destroyed along with the
    /// child. Only a closed child can be destroyed.
    pub fn destroy(&self) -> (uri: Result<String, Error>)
        ensures
            match uri {
                Ok(name) => self.state == ChildState::Closed && name@ == self@.name,
                Err(e) => self.state != ChildState::Closed && e@ == ErrorView::Invalid(
                    "child must be closed before it is destroyed"@,
                ),
            },
    {
        match self.state {
            ChildState::Closed => Ok(self.name.clone()),
            _ => Err(Error::invalid("child must be closed before it is destroyed")),
        }
    }

    /// The label of the child, given what reading its reserved region gave.
    /// Only an open child has a label to read.
    pub fn probe_label(&self, read: &Result<NexusLabel, Error>) -> (label: Result<
        NexusLabel,
        Error,
    >)
        ensures
            match label {
                Ok(l) => self@.probed(*read) == Some(l),
                Err(e) => {
                    &&& self@.probed(*read) is None
                    &&& self.state == ChildState::Open ==> *read == Err::<NexusLabel, Error>(e)
                    &&& self.state != ChildState::Open ==> e@ == ErrorView::Invalid(
                        "child is not open"@,
                    )
                },
            },
    {
        match self.state {
            ChildState::Open => match read {
                Ok(l) => Ok(*l),
                Err(e) => Err(e.clone()),
            },
            _ => Err(Error::invalid("child is not open")),
        }
    }
}

} // verus!
