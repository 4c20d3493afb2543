//! The nexus as the contracts see it, and each membership operation as a
//! function on that view.

use crate::channel::DREvent;
use crate::child::{ChildState, ChildView};
use crate::device::{lookup_device, DeviceView};
use crate::error::{Error, ErrorView};
use crate::label::NexusLabel;
use vstd::prelude::*;

verus! {

/// The state of a nexus.
#[derive(Clone, Copy, Debug, PartialEq, Eq, Structural)]
pub enum NexusState {
    /// Being assembled: children are registered, none is open.
    Init,
    /// All children were opened.
    Open,
    /// Exported, but at least one child may not hold current data.
    Degraded,
    /// Torn down.
    Closed,
    /// Exported without any child left to serve it.
    Faulted,
}

impl NexusState {
    /// Whether a nexus in this state exports its device.
    pub open spec fn serving(self) -> bool {
        self == NexusState::Open || self == NexusState::Degraded
    }
}

/// A child as it is when it joins a nexus.
pub open spec fn new_child(name: Seq<char>, parent: Seq<char>, device: Option<DeviceView>)
    -> ChildView {
    ChildView { name, parent, device, state: ChildState::Init }
}

/// Whether `i` is the place of the first child called `name`.
pub open spec fn first_child_named(children: Seq<ChildView>, name: Seq<char>, i: int) -> bool {
    &&& 0 <= i < children.len()
    &&& children[i].name == name
    &&& forall|j: int| 0 <= j < i ==> (#[trigger] children[j]).name != name
}

/// Whether `i` is the place of the first child called `name` that has never
/// been opened.
pub open spec fn first_new_child_named(children: Seq<ChildView>, name: Seq<char>, i: int)
    -> bool {
    &&& 0 <= i < children.len()
    &&& children[i].name == name
    &&& children[i].state == ChildState::Init
    &&& forall|j: int|
        0 <= j < i ==> !((#[trigger] children[j]).name == name && children[j].state
            == ChildState::Init)
}

/// The smallest number of blocks among the open children of `children`,
/// and `u64::MAX` if none is open.
pub open spec fn min_open_blocks(children: Seq<ChildView>) -> int
    decreases children.len(),
{
    if children.len() == 0 {
        u64::MAX as int
    } else {
        let rest = min_open_blocks(children.drop_last());
        let child = children.last();
        if child.in_service() && child.device->Some_0.num_blocks < rest {
            child.device->Some_0.num_blocks as int
        } else {
            rest
        }
    }
}

/// The largest alignment that an open child of `children` requires, and 0
/// if none is open.
pub open spec fn max_open_alignment(children: Seq<ChildView>) -> int
    decreases children.len(),
{
    if children.len() == 0 {
        0
    } else {
        let rest = max_open_alignment(children.drop_last());
        let child = children.last();
        if child.in_service() && child.device->Some_0.alignment > rest {
            child.device->Some_0.alignment as int
        } else {
            rest
        }
    }
}

/// The children as they are after each of them changed to `state`.
pub open spec fn all_in_state(children: Seq<ChildView>, state: ChildState) -> Seq<ChildView> {
    Seq::new(children.len(), |i: int| children[i].with_state(state))
}

/// The children as they are after an attempt to open them all was undone:
/// each child that could be opened is closed, the others are as before.
pub open spec fn reclosed(children: Seq<ChildView>, size: u64) -> Seq<ChildView> {
    Seq::new(
        children.len(),
        |i: int|
            if children[i].can_open(size) {
                children[i].with_state(ChildState::Closed)
            } else {
                children[i]
            },
    )
}

/// The given names as sequences of characters.
pub open spec fn names_of(names: Seq<String>) -> Seq<Seq<char>> {
    Seq::new(names.len(), |i: int| names[i]@)
}

/// Whether every child was probed and every label read is `label`.
pub open spec fn all_probed_as(
    children: Seq<ChildView>,
    probes: Seq<Result<NexusLabel, Error>>,
    label: NexusLabel,
) -> bool {
    &&& probes.len() == children.len()
    &&& forall|i: int|
        0 <= i < children.len() ==> (#[trigger] children[i]).probed(probes[i]) == Some(label)
}

/// Whether every child was probed and has a label.
pub open spec fn all_probed(children: Seq<ChildView>, probes: Seq<Result<NexusLabel, Error>>)
    -> bool {
    &&& probes.len() == children.len()
    &&& forall|i: int|
        0 <= i < children.len() ==> (#[trigger] children[i]).probed(probes[i]) is Some
}

/// A nexus as the contracts see it.
pub struct NexusView {
    pub name: Seq<char>,
    pub size: u64,
    pub state: NexusState,
    /// The block size that was recorded for the nexus, once one was.
    pub block_len: Option<u32>,
    pub required_alignment: u32,
    pub children: Seq<ChildView>,
    pub child_count: nat,
    pub events: Seq<DREvent>,
}

impl NexusView {
    /// What holds of a nexus between any two operations.
    pub open spec fn wf(self) -> bool {
        &&& self.child_count == self.children.len()
        &&& self.state.serving() ==> self.children.len() > 0
        &&& !self.state.serving() ==> forall|i: int|
            0 <= i < self.children.len() ==> (#[trigger] self.children[i]).state
                != ChildState::Open
        &&& forall|i: int|
            0 <= i < self.children.len() && (#[trigger] self.children[i]).state
                == ChildState::Open ==> self.serves(self.children[i])
        &&& self.required_alignment == max_open_alignment(self.children)
        &&& self.state == NexusState::Init ==> {
            &&& self.block_len is None
            &&& forall|i: int|
                0 <= i < self.children.len() ==> (#[trigger] self.children[i]).state
                    == ChildState::Init || self.children[i].state == ChildState::Closed
        }
    }

    /// Whether `child` has a device of the block size recorded for the
    /// nexus that is large enough for it: what holds of every open child.
    pub open spec fn serves(self, child: ChildView) -> bool {
        &&& child.device is Some
        &&& self.block_len == Some(child.device->Some_0.block_len)
        &&& child.device->Some_0.fits(self.size)
    }

    /// Whether the block size `block_len` is at odds with the one recorded
    /// for the nexus. Where none is recorded yet, none is.
    pub open spec fn differs_in_block_len(self, block_len: u32) -> bool {
        self.block_len is Some && self.block_len != Some(block_len)
    }

    /// Whether a device suits the nexus: it can hold its logical size and
    /// its block size is not at odds with the one recorded.
    pub open spec fn accepts(self, device: DeviceView) -> bool {
        &&& !self.differs_in_block_len(device.block_len)
        &&& device.fits(self.size)
    }

    /// The same nexus with `block_len` as its recorded block size.
    pub open spec fn with_block_len(self, block_len: u32) -> NexusView {
        NexusView { block_len: Some(block_len), ..self }
    }

    /// The place of the first child called `name`, if there is one.
    pub open spec fn child_index(self, name: Seq<char>) -> Option<int> {
        if exists|i: int| first_child_named(self.children, name, i) {
            Some(choose|i: int| first_child_named(self.children, name, i))
        } else {
            None
        }
    }

    /// The place of the first child called `name` that has never been
    /// opened, if there is one.
    pub open spec fn new_child_index(self, name: Seq<char>) -> Option<int> {
        if exists|i: int| first_new_child_named(self.children, name, i) {
            Some(choose|i: int| first_new_child_named(self.children, name, i))
        } else {
            None
        }
    }

    /// The smallest number of blocks among the open children.
    pub open spec fn min_num_blocks(self) -> int {
        min_open_blocks(self.children)
    }

    /// The same nexus in another state.
    pub open spec fn with_state(self, state: NexusState) -> NexusView {
        NexusView { state, ..self }
    }

    /// The same nexus with other children; the count follows.
    pub open spec fn with_children(self, children: Seq<ChildView>) -> NexusView {
        NexusView { children, child_count: children.len(), ..self }
    }

    /// The same nexus with `child` in place `i`.
    pub open spec fn with_child_at(self, i: int, child: ChildView) -> NexusView {
        self.with_children(self.children.update(i, child))
    }

    /// The nexus after the channels were told of `event`: the alignment it
    /// requires is that of its open children, and the event is recorded
    /// behind those not yet delivered.
    pub open spec fn reconfigured(self, event: DREvent) -> NexusView {
        NexusView {
            required_alignment: max_open_alignment(self.children) as u32,
            events: self.events.push(event),
            ..self
        }
    }

    /// The nexus after `names` were registered against `registry`: one new
    /// child for each name, in order, behind the children it had, each with
    /// the device that the registry knows under its name.
    pub open spec fn register_children(self, names: Seq<Seq<char>>, registry: Seq<DeviceView>)
        -> NexusView {
        self.with_children(
            self.children + Seq::new(
                names.len(),
                |i: int| new_child(names[i], self.name, lookup_device(registry, names[i])),
            ),
        )
    }

    /// The nexus after the device `device_name` was created for `uri` and
    /// registered.
    pub open spec fn register_child(
        self,
        uri: Seq<char>,
        device_name: Seq<char>,
        registry: Seq<DeviceView>,
    ) -> NexusView {
        self.with_children(
            self.children.push(new_child(uri, self.name, lookup_device(registry, device_name))),
        )
    }

    /// Why the device `device_name` cannot be added, or `None` if it can.
    pub open spec fn add_child_error(self, device_name: Seq<char>, registry: Seq<DeviceView>)
        -> Option<ErrorView> {
        match lookup_device(registry, device_name) {
            None => Some(ErrorView::Internal("child does not exist"@)),
            Some(device) => if self.accepts(device) {
                None
            } else {
                Some(ErrorView::GeometryMismatch)
            },
        }
    }

    /// The nexus after the device `device_name`, created for `uri`, was
    /// added: the new child is last and faulted, and the nexus is degraded.
    /// The block size of the device is the one recorded from then on.
    pub open spec fn add_child(
        self,
        uri: Seq<char>,
        device_name: Seq<char>,
        registry: Seq<DeviceView>,
    ) -> NexusView {
        let device = lookup_device(registry, device_name);
        self.with_children(
            self.children.push(new_child(uri, self.name, device).with_state(ChildState::Faulted)),
        ).with_block_len(device->Some_0.block_len).reconfigured(DREvent::ChildAdd).with_state(
            NexusState::Degraded,
        )
    }

    /// Why the child called `uri` cannot be removed, or `None` if it can or
    /// if there is no such child.
    pub open spec fn remove_child_error(self, uri: Seq<char>) -> Option<ErrorView> {
        match self.child_index(uri) {
            None => None,
            Some(i) => if self.children[i].state == ChildState::Closed {
                None
            } else {
                Some(ErrorView::Invalid("must close me"@))
            },
        }
    }

    /// The nexus after the child called `uri` was removed. A nexus that
    /// loses its last child while it serves ends closed.
    pub open spec fn remove_child(self, uri: Seq<char>) -> NexusView {
        match self.child_index(uri) {
            None => self,
            Some(i) => {
                let left = self.with_children(self.children.remove(i)).reconfigured(
                    DREvent::ChildRemove,
                );
                if left.children.len() == 0 && self.state.serving() {
                    left.with_state(NexusState::Closed)
                } else {
                    left
                }
            },
        }
    }

    /// The nexus after the child in place `i` was closed.
    pub open spec fn offline_child(self, i: int) -> NexusView {
        self.with_child_at(i, self.children[i].with_state(ChildState::Closed)).reconfigured(
            DREvent::ChildOffline,
        ).with_state(NexusState::Degraded)
    }

    /// Whether the child called `name` is closed but can never serve this
    /// nexus, because the block size of its device is at odds with the one
    /// recorded.
    pub open spec fn online_rejects(self, name: Seq<char>) -> bool {
        &&& self.child_index(name) matches Some(i)
        &&& self.children[i].state == ChildState::Closed
        &&& self.children[i].device matches Some(device)
        &&& self.differs_in_block_len(device.block_len)
    }

    /// Why the child called `name` cannot be brought online, or `None` if
    /// it can: there is no such child, it is not closed, or opening it
    /// fails, or the block size of its device is at odds with the one
    /// recorded.
    pub open spec fn online_child_error(self, name: Seq<char>) -> Option<ErrorView> {
        match self.child_index(name) {
            None => Some(ErrorView::NotFound),
            Some(i) => {
                let child = self.children[i];
                if child.state != ChildState::Closed {
                    Some(ErrorView::Invalid("Child is not closed so can not open"@))
                } else if self.online_rejects(name) {
                    Some(ErrorView::GeometryMismatch)
                } else {
                    child.open_error(self.size)
                }
            },
        }
    }

    /// The nexus after the child in place `i` was opened: the block size
    /// of its device is the one recorded, the channels were told, and the
    /// nexus is degraded.
    pub open spec fn online_child(self, i: int) -> NexusView {
        self.with_child_at(i, self.children[i].with_state(ChildState::Open)).with_block_len(
            self.children[i].device->Some_0.block_len,
        ).reconfigured(DREvent::ChildOnline).with_state(NexusState::Degraded)
    }

    /// The nexus after the child in place `i` was found unfit for it.
    pub open spec fn reject_child(self, i: int) -> NexusView {
        self.with_child_at(i, self.children[i].with_state(ChildState::ConfigInvalid))
    }

    /// The nexus after the child in place `i` was taken out of service.
    pub open spec fn fault_child(self, i: int) -> NexusView {
        self.with_child_at(i, self.children[i].with_state(ChildState::Faulted)).reconfigured(
            DREvent::ChildFault,
        ).with_state(NexusState::Degraded)
    }

    /// The nexus after all its children were closed to be destroyed.
    pub open spec fn destroy_children(self) -> NexusView {
        NexusView {
            children: all_in_state(self.children, ChildState::Closed),
            required_alignment: 0,
            state: NexusState::Closed,
            ..self
        }
    }

    /// The nexus after a look at the registry for the child called `name`:
    /// the first child of that name that has never been opened gets the
    /// device that the registry knows under the name.
    pub open spec fn examine_child(self, name: Seq<char>, registry: Seq<DeviceView>)
        -> NexusView {
        match (self.new_child_index(name), lookup_device(registry, name)) {
            (Some(i), Some(device)) => self.with_child_at(
                i,
                self.children[i].with_device(device),
            ),
            _ => self,
        }
    }

    /// Whether the examination of `name` attaches a device.
    pub open spec fn examine_attaches(self, name: Seq<char>, registry: Seq<DeviceView>) -> bool {
        self.new_child_index(name) is Some && lookup_device(registry, name) is Some
    }

    /// Whether there are children and each has its device.
    pub open spec fn complete(self) -> bool {
        &&& self.children.len() > 0
        &&& forall|i: int|
            0 <= i < self.children.len() ==> (#[trigger] self.children[i]).device is Some
    }

    /// Whether all devices have the block size of the first.
    pub open spec fn uniform_block_len(self) -> bool {
        forall|i: int|
            0 <= i < self.children.len() ==> (#[trigger] self.children[i]).device->Some_0.block_len
                == self.children[0].device->Some_0.block_len
    }

    /// Whether every child can be opened for this nexus.
    pub open spec fn all_can_open(self) -> bool {
        forall|i: int|
            0 <= i < self.children.len() ==> (#[trigger] self.children[i]).can_open(self.size)
    }

    /// Why the children cannot all be opened, or `None` if they can.
    pub open spec fn try_open_error(self) -> Option<ErrorView> {
        if !self.complete() {
            Some(ErrorView::Incomplete)
        } else if !self.uniform_block_len() {
            Some(ErrorView::Invalid("children have mixed block sizes"@))
        } else if !self.all_can_open() {
            Some(ErrorView::Incomplete)
        } else {
            None
        }
    }

    /// The nexus after the attempt to open all children. If they all open,
    /// the nexus is open with the block size of its children and the
    /// largest alignment among them. If one does not, those that did are
    /// closed again and nothing else changes. If the children are not
    /// complete or differ in block size, nothing changes at all.
    pub open spec fn try_open_children(self) -> NexusView {
        if !self.complete() || !self.uniform_block_len() {
            self
        } else if !self.all_can_open() {
            self.with_children(reclosed(self.children, self.size))
        } else {
            let opened = all_in_state(self.children, ChildState::Open);
            NexusView {
                children: opened,
                state: NexusState::Open,
                block_len: Some(self.children[0].device->Some_0.block_len),
                required_alignment: max_open_alignment(opened) as u32,
                ..self
            }
        }
    }

    /// What the probes of the children's labels amount to: the label they
    /// all carry, or why there is none.
    pub open spec fn common_label(self, probes: Seq<Result<NexusLabel, Error>>) -> Result<
        NexusLabel,
        ErrorView,
    > {
        if !all_probed(self.children, probes) || self.children.len() == 0 {
            Err(ErrorView::LabelProbeFailed)
        } else {
            let first = self.children[0].probed(probes[0])->Some_0;
            if all_probed_as(self.children, probes, first) {
                Ok(first)
            } else {
                Err(ErrorView::Invalid("GPT labels differ"@))
            }
        }
    }
}

/// Both extremes lie within the range of their integer type.
pub proof fn lemma_extremes_bounded(children: Seq<ChildView>)
    ensures
        0 <= min_open_blocks(children) <= u64::MAX,
        0 <= max_open_alignment(children) <= u32::MAX,
    decreases children.len(),
{
    if children.len() > 0 {
        lemma_extremes_bounded(children.drop_last());
    }
}

/// Without an open child the extremes are at their defaults.
pub proof fn lemma_extremes_without_open_child(children: Seq<ChildView>)
    requires
        forall|i: int|
            0 <= i < children.len() ==> (#[trigger] children[i]).state != ChildState::Open,
    ensures
        min_open_blocks(children) == u64::MAX,
        max_open_alignment(children) == 0,
    decreases children.len(),
{
    if children.len() > 0 {
        let front = children.drop_last();
        assert forall|i: int| 0 <= i < front.len() implies (#[trigger] front[i]).state
            != ChildState::Open by {
            assert(front[i] == children[i]);
        }
        lemma_extremes_without_open_child(front);
    }
}

/// The extremes depend on nothing but the open children and their devices.
pub proof fn lemma_extremes_of_same_open_children(a: Seq<ChildView>, b: Seq<ChildView>)
    requires
        a.len() == b.len(),
        forall|i: int|
            0 <= i < a.len() ==> ((#[trigger] a[i]).state == ChildState::Open <==> (
            #[trigger] b[i]).state == ChildState::Open),
        forall|i: int|
            0 <= i < a.len() && (#[trigger] a[i]).state == ChildState::Open ==> a[i].device
                == (#[trigger] b[i]).device,
    ensures
        min_open_blocks(a) == min_open_blocks(b),
        max_open_alignment(a) == max_open_alignment(b),
    decreases a.len(),
{
    if a.len() > 0 {
        let fa = a.drop_last();
        let fb = b.drop_last();
        assert forall|i: int| 0 <= i < fa.len() implies ((#[trigger] fa[i]).state
            == ChildState::Open <==> (#[trigger] fb[i]).state == ChildState::Open) by {
            assert(fa[i] == a[i] && fb[i] == b[i]);
        }
        assert forall|i: int| 0 <= i < fa.len() && (#[trigger] fa[i]).state
            == ChildState::Open implies fa[i].device == (#[trigger] fb[i]).device by {
            assert(fa[i] == a[i] && fb[i] == b[i]);
        }
        lemma_extremes_of_same_open_children(fa, fb);
        assert(a.last() == a[a.len() - 1] && b.last() == b[b.len() - 1]);
    }
}

} // verus!
