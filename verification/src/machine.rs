//! The membership operations as one state machine over [`NexusView`]: what
//! each operation needs, and where it leads.

use crate::device::DeviceView;
use crate::error::Error;
use crate::model::NexusView;
use crate::model::NexusState;
use vstd::prelude::*;

verus! {

/// One call of an operation that may change a nexus, with what the call was
/// given.
pub enum Operation {
    /// Register a child for each name.
    RegisterChildren { names: Seq<Seq<char>>, registry: Seq<DeviceView> },
    /// Register one child, for whose URI a device was created under the
    /// name `created`, or could not be created.
    RegisterChild { uri: Seq<char>, created: Option<Seq<char>>, registry: Seq<DeviceView> },
    /// Add one child to an exported nexus, for whose URI a device was
    /// created under the name `created`, or could not be created.
    AddChild { uri: Seq<char>, created: Option<Seq<char>>, registry: Seq<DeviceView> },
    /// Remove the child of that URI.
    RemoveChild { uri: Seq<char> },
    /// Take the child of that name offline.
    OfflineChild { name: Seq<char> },
    /// Bring the child of that name online.
    OnlineChild { name: Seq<char> },
    /// Fault the child of that name.
    FaultChild { name: Seq<char> },
    /// Close all children for destruction.
    DestroyChildren,
    /// Look for the device of the child of that name.
    ExamineChild { name: Seq<char>, registry: Seq<DeviceView> },
    /// Try to open all children.
    TryOpenChildren,
    /// Hand the recorded events over.
    TakeEvents,
}

/// The name under which a device was created, if it was.
pub open spec fn created_name(created: Result<String, Error>) -> Option<Seq<char>> {
    match created {
        Ok(name) => Some(name@),
        Err(_) => None,
    }
}

impl Operation {
    /// Whether `self` can take a nexus from the state `from` to the state
    /// `to`. Every operation can leave the state as it is. Beyond that,
    /// opening the children together leads from `Init` to `Open`; adding a
    /// child, taking one offline, bringing one online and faulting one
    /// lead to `Degraded`; and only the destruction of the children, or the
    /// removal of a child from a nexus that is exported, leads to `Closed`.
    pub open spec fn may_move(self, from: NexusState, to: NexusState) -> bool {
        ||| to == from
        ||| match self {
            Operation::TryOpenChildren => from == NexusState::Init && to == NexusState::Open,
            Operation::AddChild { .. } => to == NexusState::Degraded,
            Operation::OfflineChild { .. } => to == NexusState::Degraded,
            Operation::OnlineChild { .. } => to == NexusState::Degraded,
            Operation::FaultChild { .. } => to == NexusState::Degraded,
            Operation::RemoveChild { .. } => from.serving() && to == NexusState::Closed,
            Operation::DestroyChildren => to == NexusState::Closed,
            _ => false,
        }
    }
}

impl NexusView {
    /// Whether `op` may be called on the nexus as it is: children are
    /// registered and opened together only while the nexus is assembled.
    pub open spec fn admits(self, op: Operation) -> bool {
        match op {
            Operation::RegisterChildren { names, registry } => self.state == NexusState::Init,
            Operation::RegisterChild { uri, created, registry } => self.state == NexusState::Init,
            Operation::TryOpenChildren => self.state == NexusState::Init,
            _ => true,
        }
    }

    /// The nexus after `op`. An operation that fails leaves the nexus as it
    /// was, but for a child that was to be brought online and whose block
    /// size is at odds with the one recorded.
    pub open spec fn step(self, op: Operation) -> NexusView {
        match op {
            Operation::RegisterChildren { names, registry } => self.register_children(
                names,
                registry,
            ),
            Operation::RegisterChild { uri, created, registry } => match created {
                Some(device_name) => self.register_child(uri, device_name, registry),
                None => self,
            },
            Operation::AddChild { uri, created, registry } => match created {
                Some(device_name) => if self.add_child_error(device_name, registry) is None {
                    self.add_child(uri, device_name, registry)
                } else {
                    self
                },
                None => self,
            },
            Operation::RemoveChild { uri } => if self.remove_child_error(uri) is None {
                self.remove_child(uri)
            } else {
                self
            },
            Operation::OfflineChild { name } => match self.child_index(name) {
                Some(i) => self.offline_child(i),
                None => self,
            },
            Operation::OnlineChild { name } => if self.online_child_error(name) is None {
                self.online_child(self.child_index(name)->Some_0)
            } else if self.online_rejects(name) {
                self.reject_child(self.child_index(name)->Some_0)
            } else {
                self
            },
            Operation::FaultChild { name } => match self.child_index(name) {
                Some(i) => self.fault_child(i),
                None => self,
            },
            Operation::DestroyChildren => self.destroy_children(),
            Operation::ExamineChild { name, registry } => self.examine_child(name, registry),
            Operation::TryOpenChildren => self.try_open_children(),
            Operation::TakeEvents => NexusView { events: Seq::empty(), ..self },
        }
    }

    /// Whether the operations of `ops` can be called one after the other,
    /// starting from the nexus as it is.
    pub open spec fn admits_all(self, ops: Seq<Operation>) -> bool
        decreases ops.len(),
    {
        ops.len() > 0 ==> self.admits(ops[0]) && self.step(ops[0]).admits_all(ops.drop_first())
    }

    /// The nexus after the operations of `ops`, one after the other.
    pub open spec fn run(self, ops: Seq<Operation>) -> NexusView
        decreases ops.len(),
    {
        if ops.len() == 0 {
            self
        } else {
            self.step(ops[0]).run(ops.drop_first())
        }
    }
}

} // verus!
