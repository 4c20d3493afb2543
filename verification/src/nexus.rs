//! The controller: a nexus and the operations on its children.
//!
//! Children are registered while the nexus is being assembled and opened
//! together. From then on a child can be taken offline, brought online,
//! faulted, added or removed; each of these leaves the nexus degraded,
//! because only a rebuild, which is decided elsewhere, makes a child's
//! contents current again.

use crate::channel::{routes_open_children, DREvent};
use crate::child::{ChildState, NexusChild};
use crate::device::{lookup_device, DeviceHandle, DeviceRegistry};
use crate::error::{Error, ErrorView};
use crate::label::NexusLabel;
use crate::laws::{lemma_child_index, lemma_min_num_blocks};
use crate::machine::{created_name, Operation};
use crate::model::{
    all_in_state, all_probed, all_probed_as, first_child_named, first_new_child_named,
    lemma_extremes_bounded, lemma_extremes_of_same_open_children,
    lemma_extremes_without_open_child, max_open_alignment, min_open_blocks, names_of,
    new_child, reclosed, NexusState, NexusView,
};
use vstd::prelude::*;

verus! {

/// What an attempt to add a child came to.
#[derive(Debug, PartialEq, Eq)]
pub struct Addition {
    /// The state of the nexus with its new child, or why there is none.
    pub result: Result<NexusState, Error>,
    /// The URI of a backing device that was created for the child and is
    /// left without one. It is to be destroyed.
    pub orphan: Option<String>,
}

/// A nexus: a virtual block device over a list of children.
pub struct Nexus {
    name: String,
    size: u64,
    state: NexusState,
    block_len: Option<u32>,
    required_alignment: u32,
    children: Vec<NexusChild>,
    child_count: usize,
    events: Vec<DREvent>,
}

impl View for Nexus {
    type V = NexusView;

    closed spec fn view(&self) -> NexusView {
        NexusView {
            name: self.name@,
            size: self.size,
            state: self.state,
            block_len: self.block_len,
            required_alignment: self.required_alignment,
            children: Seq::new(self.children@.len(), |i: int| self.children@[i]@),
            child_count: self.child_count as nat,
            events: self.events@,
        }
    }
}

impl Nexus {
    /// What holds of a nexus between any two operations.
    pub open spec fn wf(&self) -> bool {
        self@.wf()
    }

    /// A nexus called `name` that exports `size` bytes. It has no children
    /// yet and is being assembled.
    pub fn new(name: &str, size: u64) -> (nexus: Nexus)
        ensures
            nexus.wf(),
            nexus@ == (NexusView {
                name: name@,
                size,
                state: NexusState::Init,
                block_len: None,
                required_alignment: 0,
                children: Seq::empty(),
                child_count: 0,
                events: Seq::empty(),
            }),
    {
        let nexus = Nexus {
            name: name.to_owned(),
            size,
            state: NexusState::Init,
            block_len: None,
            required_alignment: 0,
            children: Vec::new(),
            child_count: 0,
            events: Vec::new(),
        };
        assert(nexus@.children =~= Seq::empty());
        nexus
    }

    /// The name of the nexus.
    pub fn name(&self) -> (name: &String)
        ensures
            name@ == self@.name,
    {
        &self.name
    }

    /// The number of bytes the nexus exports.
    pub fn size(&self) -> (size: u64)
        ensures
            size == self@.size,
    {
        self.size
    }

    /// The state of the nexus.
    pub fn state(&self) -> (state: NexusState)
        ensures
            state == self@.state,
    {
        self.state
    }

    /// The block size of the nexus: that of its children, recorded when
    /// the first of them was accepted. Until then there is none.
    pub fn block_len(&self) -> (len: Option<u32>)
        ensures
            len == self@.block_len,
    {
        self.block_len
    }

    /// The alignment that buffers handed to the nexus must have.
    pub fn required_alignment(&self) -> (alignment: u32)
        ensures
            alignment == self@.required_alignment,
    {
        self.required_alignment
    }

    /// The number of children.
    pub fn child_count(&self) -> (count: usize)
        ensures
            count == self@.child_count,
    {
        self.child_count
    }

    /// The children, in the order in which they joined.
    pub fn children(&self) -> (children: &Vec<NexusChild>)
        ensures
            children@.len() == self@.children.len(),
            forall|i: int|
                0 <= i < children@.len() ==> (#[trigger] children@[i])@ == self@.children[i],
    {
        &self.children
    }

    /// The events that were recorded since they were last taken, oldest
    /// first. Nothing else changes.
    pub fn take_events(&mut self) -> (events: Vec<DREvent>)
        ensures
            events@ == old(self)@.events,
            final(self)@ == (NexusView { events: Seq::empty(), ..old(self)@ }),
            final(self)@ == old(self)@.step(Operation::TakeEvents),
    {
        let mut events: Vec<DREvent> = Vec::new();
        std::mem::swap(&mut self.events, &mut events);
        events
    }

    /// The smallest number of blocks among the open children, which may
    /// differ in size, and `u64::MAX` if no child is open.
    pub fn min_num_blocks(&self) -> (blocks: u64)
        ensures
            blocks == self@.min_num_blocks(),
            forall|i: int|
                0 <= i < self@.children.len() && (#[trigger] self@.children[i]).in_service()
                    ==> blocks <= self@.children[i].device->Some_0.num_blocks,
            (exists|i: int|
                0 <= i < self@.children.len() && (#[trigger] self@.children[i]).in_service())
                ==> exists|i: int|
                0 <= i < self@.children.len() && (#[trigger] self@.children[i]).in_service()
                    && self@.children[i].device->Some_0.num_blocks == blocks,
            (forall|i: int|
                0 <= i < self@.children.len() ==> !(#[trigger] self@.children[i]).in_service())
                ==> blocks == u64::MAX,
    {
        proof {
            lemma_min_num_blocks(self@.children);
        }
        let mut blockcnt: u64 = u64::MAX;
        let mut i: usize = 0;
        while i < self.children.len()
            invariant
                i <= self.children.len(),
                blockcnt == min_open_blocks(self@.children.take(i as int)),
            decreases self.children.len() - i,
        {
            let ghost seen = self@.children.take(i as int + 1);
            assert(seen.drop_last() =~= self@.children.take(i as int));
            assert(seen.last() == self.children@[i as int]@);
            let child = &self.children[i];
            match (&child.state, &child.bdev) {
                (ChildState::Open, Some(device)) => {
                    if device.num_blocks < blockcnt {
                        blockcnt = device.num_blocks;
                    }
                },
                _ => {},
            }
            i += 1;
        }
        assert(self@.children.take(i as int) =~= self@.children);
        blockcnt
    }

    /// The largest alignment that an open child requires, and 0 if no child
    /// is open.
    fn max_alignment(&self) -> (alignment: u32)
        ensures
            alignment == max_open_alignment(self@.children),
    {
        let mut largest: u32 = 0;
        let mut i: usize = 0;
        while i < self.children.len()
            invariant
                i <= self.children.len(),
                largest == max_open_alignment(self@.children.take(i as int)),
            decreases self.children.len() - i,
        {
            let ghost seen = self@.children.take(i as int + 1);
            assert(seen.drop_last() =~= self@.children.take(i as int));
            assert(seen.last() == self.children@[i as int]@);
            let child = &self.children[i];
            match (&child.state, &child.bdev) {
                (ChildState::Open, Some(device)) => {
                    if device.alignment > largest {
                        largest = device.alignment;
                    }
                },
                _ => {},
            }
            i += 1;
        }
        assert(self@.children.take(i as int) =~= self@.children);
        largest
    }

    /// The routing table that a channel builds when it is told of a change:
    /// the places of the open children, in order. A child takes part in I/O
    /// if and only if it is listed here.
    pub fn routing_table(&self) -> (table: Vec<usize>)
        ensures
            routes_open_children(self@.children, table@),
    {
        let mut table: Vec<usize> = Vec::new();
        let mut i: usize = 0;
        while i < self.children.len()
            invariant
                i <= self.children.len(),
                routes_open_children(self@.children.take(i as int), table@),
                forall|a: int| 0 <= a < table@.len() ==> table@[a] < i,
            decreases self.children.len() - i,
        {
            let ghost before = table@;
            let ghost seen = self@.children.take(i as int + 1);
            assert(forall|k: int| 0 <= k < i ==> seen[k] == self@.children.take(i as int)[k]);
            if self.children[i].state == ChildState::Open {
                table.push(i);
                assert(table@[before.len() as int] == i);
                assert forall|k: int|
                    0 <= k < seen.len() && (#[trigger] seen[k]).state
                        == ChildState::Open implies table@.contains(k as usize) by {
                    if k < i {
                        assert(self@.children.take(i as int)[k].state == ChildState::Open);
                        let a = choose|a: int| 0 <= a < before.len() && before[a] == k as usize;
                        assert(table@[a] == k as usize);
                    }
                }
            } else {
                assert forall|k: int|
                    0 <= k < seen.len() && (#[trigger] seen[k]).state
                        == ChildState::Open implies table@.contains(k as usize) by {
                    assert(self@.children.take(i as int)[k].state == ChildState::Open);
                }
            }
            i += 1;
        }
        assert(self@.children.take(i as int) =~= self@.children);
        table
    }

    /// The place of the first child called `name`.
    fn find_child(&self, name: &str) -> (found: Option<usize>)
        ensures
            match found {
                Some(i) => self@.child_index(name@) == Some(i as int) && i < self.children@.len(),
                None => self@.child_index(name@) is None,
            },
    {
        let wanted: String = name.to_owned();
        let mut i: usize = 0;
        while i < self.children.len()
            invariant
                i <= self.children.len(),
                wanted@ == name@,
                forall|j: int| 0 <= j < i ==> (#[trigger] self@.children[j]).name != name@,
            decreases self.children.len() - i,
        {
            if self.children[i].name == wanted {
                assert(first_child_named(self@.children, name@, i as int));
                return Some(i);
            }
            i += 1;
        }
        None
    }

    /// The place of the first child called `name` that has never been
    /// opened.
    fn find_new_child(&self, name: &str) -> (found: Option<usize>)
        ensures
            match found {
                Some(i) => self@.new_child_index(name@) == Some(i as int) && i
                    < self.children@.len(),
                None => self@.new_child_index(name@) is None,
            },
    {
        let wanted: String = name.to_owned();
        let mut i: usize = 0;
        while i < self.children.len()
            invariant
                i <= self.children.len(),
                wanted@ == name@,
                forall|j: int|
                    0 <= j < i ==> !((#[trigger] self@.children[j]).name == name@
                        && self@.children[j].state == ChildState::Init),
            decreases self.children.len() - i,
        {
            if self.children[i].name == wanted && self.children[i].state == ChildState::Init {
                assert(first_new_child_named(self@.children, name@, i as int));
                return Some(i);
            }
            i += 1;
        }
        None
    }

    /// Whether there are children and each has its device.
    fn is_complete(&self) -> (complete: bool)
        ensures
            complete == self@.complete(),
    {
        if self.children.len() == 0 {
            return false;
        }
        let mut i: usize = 0;
        while i < self.children.len()
            invariant
                i <= self.children.len(),
                forall|j: int| 0 <= j < i ==> (#[trigger] self@.children[j]).device is Some,
            decreases self.children.len() - i,
        {
            if self.children[i].bdev.is_none() {
                assert(self@.children[i as int].device is None);
                return false;
            }
            i += 1;
        }
        true
    }

    /// The block size of the first child's device, provided that all
    /// devices share it.
    fn common_block_len(&self) -> (len: Option<u32>)
        requires
            self@.complete(),
        ensures
            match len {
                Some(l) => self@.uniform_block_len() && l
                    == self@.children[0].device->Some_0.block_len,
                None => !self@.uniform_block_len(),
            },
    {
        assert(self@.children[0].device is Some);
        let blk_size: u32 = match &self.children[0].bdev {
            Some(device) => device.block_len,
            None => 0,
        };
        let mut i: usize = 0;
        while i < self.children.len()
            invariant
                i <= self.children.len(),
                self@.complete(),
                blk_size == self@.children[0].device->Some_0.block_len,
                forall|j: int|
                    0 <= j < i ==> (#[trigger] self@.children[j]).device->Some_0.block_len
                        == blk_size,
            decreases self.children.len() - i,
        {
            assert(self@.children[i as int].device is Some);
            let same = match &self.children[i].bdev {
                Some(device) => device.block_len == blk_size,
                None => false,
            };
            if !same {
                assert(self@.children[i as int].device->Some_0.block_len != blk_size);
                return None;
            }
            i += 1;
        }
        Some(blk_size)
    }

    /// Try to open all the children.
    ///
    /// Nothing is opened unless the nexus has children, each with its
    /// device, and all devices have one block size. Then every child is
    /// opened; if one cannot be, those that were are closed again, so the
    /// nexus is either open with all its children or has none open.
    pub fn try_open_children(&mut self) -> (opened: Result<(), Error>)
        requires
            old(self).wf(),
            old(self)@.state == NexusState::Init,
        ensures
            final(self).wf(),
            final(self)@ == old(self)@.try_open_children(),
            final(self)@ == old(self)@.step(Operation::TryOpenChildren),
            match opened {
                Ok(_) => old(self)@.try_open_error() is None,
                Err(e) => old(self)@.try_open_error() == Some(e@),
            },
    {
        let ghost before = self@;
        if !self.is_complete() {
            return Err(Error::Incomplete);
        }
        let blk_size: u32 = match self.common_block_len() {
            Some(len) => len,
            None => {
                return Err(Error::invalid("children have mixed block sizes"));
            },
        };
        let size: u64 = self.size;
        let mut failed: bool = false;
        let mut i: usize = 0;
        while i < self.children.len()
            invariant
                i <= self.children.len(),
                self@ == (NexusView { children: self@.children, ..before }),
                self@.children.len() == before.children.len(),
                before.size == size,
                forall|j: int|
                    0 <= j < i ==> (#[trigger] self@.children[j]) == if before.children[j].can_open(
                        size,
                    ) {
                        before.children[j].with_state(ChildState::Open)
                    } else {
                        before.children[j]
                    },
                forall|j: int|
                    i <= j < self@.children.len() ==> (#[trigger] self@.children[j])
                        == before.children[j],
                failed <==> exists|j: int|
                    0 <= j < i && !(#[trigger] before.children[j]).can_open(size),
            decreases self.children.len() - i,
        {
            let ghost stepped = self@.children;
            assert(self.children@[i as int]@ == before.children[i as int]) by {
                assert(self@.children[i as int] == before.children[i as int]);
            }
            let attempt = self.children[i].open(size);
            if attempt.is_err() {
                failed = true;
            }
            assert(attempt is Err <==> !before.children[i as int].can_open(size));
            assert forall|j: int| 0 <= j < self@.children.len() && j != i implies (
            #[trigger] self@.children[j]) == stepped[j] by {}
            i += 1;
        }
        if failed {
            assert(!before.all_can_open());
            let mut k: usize = 0;
            let ghost attempted = self@.children;
            while k < self.children.len()
                invariant
                    k <= self.children.len(),
                    self@ == (NexusView { children: self@.children, ..before }),
                    self@.children.len() == before.children.len(),
                    attempted.len() == before.children.len(),
                    forall|j: int|
                        0 <= j < attempted.len() ==> (#[trigger] attempted[j])
                            == if before.children[j].can_open(size) {
                            before.children[j].with_state(ChildState::Open)
                        } else {
                            before.children[j]
                        },
                    forall|j: int|
                        0 <= j < before.children.len() ==> (#[trigger] before.children[j]).state
                            != ChildState::Open,
                    forall|j: int|
                        0 <= j < k ==> (#[trigger] self@.children[j])
                            == if before.children[j].can_open(size) {
                            before.children[j].with_state(ChildState::Closed)
                        } else {
                            before.children[j]
                        },
                    forall|j: int|
                        k <= j < self@.children.len() ==> (#[trigger] self@.children[j])
                            == attempted[j],
                decreases self.children.len() - k,
            {
                let ghost stepped = self@.children;
                assert(self@.children[k as int] == attempted[k as int]);
                if self.children[k].state == ChildState::Open {
                    self.children[k].close();
                }
                assert forall|j: int| 0 <= j < self@.children.len() && j != k implies (
                #[trigger] self@.children[j]) == stepped[j] by {}
                k += 1;
            }
            assert(self@.children =~= reclosed(before.children, size));
            proof {
                lemma_extremes_without_open_child(before.children);
                lemma_extremes_without_open_child(self@.children);
            }
            return Err(Error::Incomplete);
        }
        assert(before.all_can_open());
        assert(self@.children =~= all_in_state(before.children, ChildState::Open));
        self.block_len = Some(blk_size);
        self.required_alignment = self.max_alignment();
        self.state = NexusState::Open;
        Ok(())
    }

    /// Whether the block size `block_len` is at odds with the one recorded
    /// for the nexus.
    fn differs_in_block_len(&self, block_len: u32) -> (differs: bool)
        ensures
            differs == self@.differs_in_block_len(block_len),
    {
        match self.block_len {
            Some(recorded) => recorded != block_len,
            None => false,
        }
    }

    /// Whether `device` suits the nexus: it can hold its logical size, and
    /// its block size is the one recorded for the nexus, if one is.
    pub fn validate_geometry(&self, device: &DeviceHandle) -> (accepted: bool)
        ensures
            accepted == self@.accepts(device@),
    {
        !self.differs_in_block_len(device.block_len) && device.fits(self.size)
    }

    /// Move the nexus to `state` and return that state.
    fn set_state(&mut self, state: NexusState) -> (now: NexusState)
        ensures
            now == state,
            final(self)@ == old(self)@.with_state(state),
    {
        self.state = state;
        state
    }

    /// Record `event` for the channels and bring the required alignment in
    /// line with the children that are open now.
    fn reconfigure(&mut self, event: DREvent)
        ensures
            final(self)@ == old(self)@.reconfigured(event),
            final(self)@.required_alignment == max_open_alignment(final(self)@.children),
    {
        proof {
            lemma_extremes_bounded(self@.children);
        }
        self.required_alignment = self.max_alignment();
        self.events.push(event);
    }

    /// Add a new child to the nexus.
    ///
    /// `created` is what the registry answered when it was asked to create
    /// the backing device for `uri`: the device's name, under which
    /// `registry` is consulted, or the reason for its failure, which is
    /// handed on. A device that is missing or does not suit the nexus is
    /// refused and nothing changes. Otherwise the child joins as the last
    /// one and is faulted at once, so that it serves no I/O before its
    /// contents were rebuilt; the block size of its device is the one
    /// recorded for the nexus, and the nexus is degraded.
    ///
    /// A device that was created and then refused is left without a child
    /// and named as the orphan that is to be destroyed.
    pub fn add_child(
        &mut self,
        uri: &str,
        created: Result<String, Error>,
        registry: &DeviceRegistry,
    ) -> (added: Addition)
        requires
            old(self).wf(),
        ensures
            final(self).wf(),
            final(self)@ == old(self)@.step(
                Operation::AddChild {
                    uri: uri@,
                    created: created_name(created),
                    registry: registry@,
                },
            ),
            match created {
                Err(cause) => added.result == Err::<NexusState, Error>(cause) && final(self)@
                    == old(self)@,
                Ok(device_name) => match added.result {
                    Ok(state) => {
                        &&& old(self)@.add_child_error(device_name@, registry@) is None
                        &&& state == NexusState::Degraded
                        &&& final(self)@ == old(self)@.add_child(uri@, device_name@, registry@)
                    },
                    Err(e) => {
                        &&& old(self)@.add_child_error(device_name@, registry@) == Some(e@)
                        &&& final(self)@ == old(self)@
                    },
                },
            },
            match added.orphan {
                Some(orphan) => created is Ok && added.result is Err && orphan@ == uri@,
                None => created is Err || added.result is Ok,
            },
    {
        let ghost before = self@;
        let name: String = match created {
            Ok(name) => name,
            Err(cause) => {
                return Addition { result: Err(cause), orphan: None };
            },
        };
        let device: DeviceHandle = match registry.lookup(name.as_str()) {
            Some(device) => device,
            None => {
                return Addition {
                    result: Err(Error::internal("child does not exist")),
                    orphan: Some(uri.to_owned()),
                };
            },
        };
        if !self.validate_geometry(&device) {
            return Addition { result: Err(Error::GeometryMismatch), orphan: Some(uri.to_owned()) };
        }
        let block_len: u32 = device.block_len;
        let mut child = NexusChild::new(uri.to_owned(), self.name.clone(), Some(device));
        match child.open(self.size) {
            Ok(_) => {
                // The child was never part of the mirror: it must not serve
                // I/O until it has been rebuilt.
                child.fault();
                let ghost joined = child@;
                self.children.push(child);
                self.child_count = self.children.len();
                self.block_len = Some(block_len);
                assert(self@.children =~= before.children.push(joined));
                self.reconfigure(DREvent::ChildAdd);
                let state = self.set_state(NexusState::Degraded);
                assert(self@ == before.add_child(uri@, name@, registry@));
                Addition { result: Ok(state), orphan: None }
            },
            Err(e) => Addition { result: Err(e), orphan: Some(uri.to_owned()) },
        }
    }

    /// Remove the child called `uri` from the nexus.
    ///
    /// Without such a child nothing happens. A child must be closed before
    /// it can be removed. The child that was removed is returned; its
    /// backing device is the caller's to destroy. A nexus that was exported
    /// and loses its last child ends closed.
    pub fn remove_child(&mut self, uri: &str) -> (removed: Result<Option<NexusChild>, Error>)
        requires
            old(self).wf(),
        ensures
            final(self).wf(),
            final(self)@ == old(self)@.step(Operation::RemoveChild { uri: uri@ }),
            (forall|i: int|
                0 <= i < old(self)@.children.len() ==> (#[trigger] old(self)@.children[i]).name
                    != uri@) ==> removed == Ok::<Option<NexusChild>, Error>(None) && final(self)@
                == old(self)@,
            match removed {
                Ok(Some(child)) => {
                    &&& old(self)@.remove_child_error(uri@) is None
                    &&& old(self)@.child_index(uri@) is Some
                    &&& child@ == old(self)@.children[old(self)@.child_index(uri@)->Some_0]
                    &&& final(self)@ == old(self)@.remove_child(uri@)
                },
                Ok(None) => {
                    &&& old(self)@.child_index(uri@) is None
                    &&& final(self)@ == old(self)@
                },
                Err(e) => {
                    &&& old(self)@.remove_child_error(uri@) == Some(e@)
                    &&& final(self)@ == old(self)@
                },
            },
    {
        let ghost before = self@;
        proof {
            lemma_child_index(before, uri@);
        }
        let idx: usize = match self.find_child(uri) {
            None => {
                return Ok(None);
            },
            Some(idx) => idx,
        };
        if self.children[idx].state != ChildState::Closed {
            return Err(Error::invalid("must close me"));
        }
        let was_serving = self.state == NexusState::Open || self.state == NexusState::Degraded;
        let child = self.children.remove(idx);
        self.child_count = self.children.len();
        assert(self@.children =~= before.children.remove(idx as int));
        self.reconfigure(DREvent::ChildRemove);
        if self.children.len() == 0 && was_serving {
            self.set_state(NexusState::Closed);
        }
        assert(self@ == before.remove_child(uri@));
        Ok(Some(child))
    }

    /// Take the child called `name` offline: close it and tell the
    /// channels. The nexus is degraded from then on.
    pub fn offline_child(&mut self, name: &str) -> (now: Result<NexusState, Error>)
        requires
            old(self).wf(),
        ensures
            final(self).wf(),
            final(self)@ == old(self)@.step(Operation::OfflineChild { name: name@ }),
            match now {
                Ok(state) => {
                    &&& old(self)@.child_index(name@) is Some
                    &&& state == NexusState::Degraded
                    &&& final(self)@ == old(self)@.offline_child(
                        old(self)@.child_index(name@)->Some_0,
                    )
                },
                Err(e) => {
                    &&& old(self)@.child_index(name@) is None
                    &&& e@ == ErrorView::NotFound
                    &&& final(self)@ == old(self)@
                },
            },
    {
        let ghost before = self@;
        let idx: usize = match self.find_child(name) {
            Some(idx) => idx,
            None => {
                return Err(Error::NotFound);
            },
        };
        self.children[idx].close();
        assert(self@.children =~= before.children.update(
            idx as int,
            before.children[idx as int].with_state(ChildState::Closed),
        ));
        self.reconfigure(DREvent::ChildOffline);
        Ok(self.set_state(NexusState::Degraded))
    }

    /// Bring the child called `name` online: open it and tell the channels.
    ///
    /// The child is registered already and must be closed. Whatever keeps
    /// it from being opened is handed on and nothing changes. Where no
    /// block size is recorded for the nexus yet, that of the child's device
    /// is recorded. Where one is recorded and the device has another, the
    /// child can never serve this nexus: it is marked as invalid and stays
    /// out. The nexus is degraded afterwards and not open, because the
    /// child may need a rebuild first.
    pub fn online_child(&mut self, name: &str) -> (now: Result<NexusState, Error>)
        requires
            old(self).wf(),
        ensures
            final(self).wf(),
            final(self)@ == old(self)@.step(Operation::OnlineChild { name: name@ }),
            match now {
                Ok(state) => {
                    &&& old(self)@.online_child_error(name@) is None
                    &&& state == NexusState::Degraded
                    &&& final(self)@ == old(self)@.online_child(
                        old(self)@.child_index(name@)->Some_0,
                    )
                },
                Err(e) => {
                    &&& old(self)@.online_child_error(name@) == Some(e@)
                    &&& final(self)@ == if old(self)@.online_rejects(name@) {
                        old(self)@.reject_child(old(self)@.child_index(name@)->Some_0)
                    } else {
                        old(self)@
                    }
                },
            },
    {
        let ghost before = self@;
        let idx: usize = match self.find_child(name) {
            Some(idx) => idx,
            None => {
                return Err(Error::NotFound);
            },
        };
        if self.children[idx].state != ChildState::Closed {
            return Err(Error::invalid("Child is not closed so can not open"));
        }
        let differs = match &self.children[idx].bdev {
            Some(device) => self.differs_in_block_len(device.block_len),
            None => false,
        };
        if differs {
            self.children[idx].state = ChildState::ConfigInvalid;
            assert(self@.children =~= before.children.update(
                idx as int,
                before.children[idx as int].with_state(ChildState::ConfigInvalid),
            ));
            proof {
                lemma_extremes_of_same_open_children(before.children, self@.children);
            }
            return Err(Error::GeometryMismatch);
        }
        assert(self.children@[idx as int]@ == before.children[idx as int]);
        match self.children[idx].open(self.size) {
            Ok(_) => {
                assert(self@.children =~= before.children.update(
                    idx as int,
                    before.children[idx as int].with_state(ChildState::Open),
                ));
                let block_len: u32 = match &self.children[idx].bdev {
                    Some(device) => device.block_len,
                    None => 0,
                };
                self.block_len = Some(block_len);
                self.reconfigure(DREvent::ChildOnline);
                Ok(self.set_state(NexusState::Degraded))
            },
            Err(e) => {
                assert(self@.children =~= before.children);
                Err(e)
            },
        }
    }

    /// Fault the child called `name`: take it out of service and tell the
    /// channels. The nexus is degraded from then on.
    pub fn fault_child(&mut self, name: &str) -> (now: Result<NexusState, Error>)
        requires
            old(self).wf(),
        ensures
            final(self).wf(),
            final(self)@ == old(self)@.step(Operation::FaultChild { name: name@ }),
            match now {
                Ok(state) => {
                    &&& old(self)@.child_index(name@) is Some
                    &&& state == NexusState::Degraded
                    &&& final(self)@ == old(self)@.fault_child(
                        old(self)@.child_index(name@)->Some_0,
                    )
                },
                Err(e) => {
                    &&& old(self)@.child_index(name@) is None
                    &&& e@ == ErrorView::NotFound
                    &&& final(self)@ == old(self)@
                },
            },
    {
        let ghost before = self@;
        let idx: usize = match self.find_child(name) {
            Some(idx) => idx,
            None => {
                return Err(Error::NotFound);
            },
        };
        self.children[idx].fault();
        assert(self@.children =~= before.children.update(
            idx as int,
            before.children[idx as int].with_state(ChildState::Faulted),
        ));
        self.reconfigure(DREvent::ChildFault);
        Ok(self.set_state(NexusState::Degraded))
    }

    /// Close every child so that its backing device can be destroyed, and
    /// return the URIs of those devices in the order of the children. The
    /// nexus ends closed; what becomes of the devices does not change that.
    pub fn destroy_children(&mut self) -> (uris: Vec<String>)
        requires
            old(self).wf(),
        ensures
            final(self).wf(),
            final(self)@ == old(self)@.destroy_children(),
            final(self)@ == old(self)@.step(Operation::DestroyChildren),
            uris@.len() == old(self)@.children.len(),
            forall|i: int|
                0 <= i < uris@.len() ==> (#[trigger] uris@[i])@ == old(self)@.children[i].name,
    {
        let ghost before = self@;
        let mut uris: Vec<String> = Vec::new();
        let mut i: usize = 0;
        while i < self.children.len()
            invariant
                i <= self.children.len(),
                self@ == (NexusView { children: self@.children, ..before }),
                self@.children.len() == before.children.len(),
                uris@.len() == i,
                forall|j: int| 0 <= j < i ==> (#[trigger] uris@[j])@ == before.children[j].name,
                forall|j: int|
                    0 <= j < i ==> (#[trigger] self@.children[j]) == before.children[j].with_state(
                        ChildState::Closed,
                    ),
                forall|j: int|
                    i <= j < self@.children.len() ==> (#[trigger] self@.children[j])
                        == before.children[j],
            decreases self.children.len() - i,
        {
            let ghost stepped = self@.children;
            assert(self.children@[i as int]@ == before.children[i as int]) by {
                assert(self@.children[i as int] == before.children[i as int]);
            }
            self.children[i].close();
            uris.push(self.children[i].name.clone());
            assert forall|j: int| 0 <= j < self@.children.len() && j != i implies (
            #[trigger] self@.children[j]) == stepped[j] by {}
            i += 1;
        }
        assert(self@.children =~= all_in_state(
            before.children,
            ChildState::Closed,
        ));
        proof {
            lemma_extremes_without_open_child(self@.children);
        }
        self.required_alignment = 0;
        self.state = NexusState::Closed;
        uris
    }

    /// Look for the device of the child called `name`, which the registry
    /// may have come to know since the child was registered. The first
    /// child of that name that has never been opened gets the device.
    /// Returns whether a device was attached. The nexus is not opened.
    pub fn examine_child(&mut self, name: &str, registry: &DeviceRegistry) -> (attached: bool)
        requires
            old(self).wf(),
        ensures
            final(self).wf(),
            attached == old(self)@.examine_attaches(name@, registry@),
            final(self)@ == old(self)@.examine_child(name@, registry@),
            final(self)@ == old(self)@.step(
                Operation::ExamineChild { name: name@, registry: registry@ },
            ),
    {
        let ghost before = self@;
        let idx: usize = match self.find_new_child(name) {
            Some(idx) => idx,
            None => {
                return false;
            },
        };
        match registry.lookup(name) {
            Some(bdev) => {
                let ghost device = bdev@;
                self.children[idx].bdev = Some(bdev);
                assert(self@.children =~= before.children.update(
                    idx as int,
                    before.children[idx as int].with_device(device),
                ));
                proof {
                    lemma_extremes_of_same_open_children(before.children, self@.children);
                }
                true
            },
            None => false,
        }
    }

    /// Register children with the nexus, one for each name, in order. Only
    /// a nexus that is still being assembled takes children this way. Each
    /// child gets the device that `registry` knows under its name, if any.
    pub fn register_children(&mut self, dev_name: &[String], registry: &DeviceRegistry)
        requires
            old(self).wf(),
            old(self)@.state == NexusState::Init,
        ensures
            final(self).wf(),
            final(self)@ == old(self)@.register_children(names_of(dev_name@), registry@),
            final(self)@ == old(self)@.step(
                Operation::RegisterChildren { names: names_of(dev_name@), registry: registry@ },
            ),
    {
        let ghost before = self@;
        let ghost names = names_of(dev_name@);
        let mut i: usize = 0;
        while i < dev_name.len()
            invariant
                i <= dev_name@.len(),
                names == names_of(dev_name@),
                self@ == before.with_children(
                    before.children + Seq::new(
                        i as nat,
                        |k: int|
                            new_child(names[k], before.name, lookup_device(registry@, names[k])),
                    ),
                ),
            decreases dev_name@.len() - i,
        {
            let ghost had = self@.children;
            let uri: &String = &dev_name[i];
            let child = NexusChild::new(
                uri.clone(),
                self.name.clone(),
                registry.lookup(uri.as_str()),
            );
            let ghost joined = child@;
            assert(joined == new_child(
                names[i as int],
                before.name,
                lookup_device(registry@, names[i as int]),
            ));
            self.children.push(child);
            self.child_count = self.children.len();
            assert(self@.children =~= had.push(joined));
            assert(self@.children =~= before.children + Seq::new(
                (i + 1) as nat,
                |k: int| new_child(names[k], before.name, lookup_device(registry@, names[k])),
            ));
            i += 1;
        }
        proof {
            lemma_extremes_without_open_child(before.children);
            lemma_extremes_without_open_child(self@.children);
        }
    }

    /// Register a single child with a nexus that is still being assembled.
    ///
    /// `created` is what the registry answered when it was asked to create
    /// the backing device for `uri`: the device's name, under which
    /// `registry` is consulted and which is returned, or the reason for its
    /// failure, which is handed on while nothing changes.
    pub fn register_child(
        &mut self,
        uri: &str,
        created: Result<String, Error>,
        registry: &DeviceRegistry,
    ) -> (registered: Result<String, Error>)
        requires
            old(self).wf(),
            old(self)@.state == NexusState::Init,
        ensures
            final(self).wf(),
            registered == created,
            final(self)@ == old(self)@.step(
                Operation::RegisterChild {
                    uri: uri@,
                    created: created_name(created),
                    registry: registry@,
                },
            ),
            final(self)@ == match created {
                Ok(device_name) => old(self)@.register_child(uri@, device_name@, registry@),
                Err(_) => old(self)@,
            },
    {
        let ghost before = self@;
        let name: String = match created {
            Ok(name) => name,
            Err(cause) => {
                return Err(cause);
            },
        };
        let child = NexusChild::new(
            uri.to_owned(),
            self.name.clone(),
            registry.lookup(name.as_str()),
        );
        let ghost joined = child@;
        self.children.push(child);
        self.child_count = self.children.len();
        assert(self@.children =~= before.children.push(joined));
        proof {
            lemma_extremes_without_open_child(before.children);
            lemma_extremes_without_open_child(self@.children);
        }
        Ok(name)
    }

    /// Settle on the label of the nexus from the labels read from its
    /// children, `probes[i]` being what reading the label of child `i`
    /// gave.
    ///
    /// This fails unless there are children, every child is open and its
    /// label could be read, and all labels are the same. On success that
    /// one label is returned.
    pub fn update_child_labels(&self, probes: Vec<Result<NexusLabel, Error>>) -> (label: Result<
        NexusLabel,
        Error,
    >)
        ensures
            match label {
                Ok(l) => self@.common_label(probes@) == Ok::<NexusLabel, ErrorView>(l),
                Err(e) => self@.common_label(probes@) == Err::<NexusLabel, ErrorView>(e@),
            },
            self@.children.len() > 0 ==> forall|l: NexusLabel|
                label == Ok::<NexusLabel, Error>(l) <==> all_probed_as(self@.children, probes@, l),
    {
        if probes.len() != self.children.len() || probes.len() == 0 {
            return Err(Error::LabelProbeFailed);
        }
        let mut labels: Vec<NexusLabel> = Vec::new();
        let mut i: usize = 0;
        while i < self.children.len()
            invariant
                i <= self.children.len(),
                probes@.len() == self.children@.len(),
                labels@.len() == i,
                forall|j: int|
                    0 <= j < i ==> (#[trigger] self@.children[j]).probed(probes@[j]) == Some(
                        labels@[j],
                    ),
            decreases self.children.len() - i,
        {
            match self.children[i].probe_label(&probes[i]) {
                Ok(l) => {
                    labels.push(l);
                },
                Err(_) => {
                    assert(self@.children[i as int].probed(probes@[i as int]) is None);
                    return Err(Error::LabelProbeFailed);
                },
            }
            i += 1;
        }
        assert(all_probed(self@.children, probes@));
        let first: NexusLabel = labels[0];
        let mut k: usize = 1;
        while k < labels.len()
            invariant
                1 <= k <= labels@.len(),
                labels@.len() == self@.children.len(),
                probes@.len() == self@.children.len(),
                first == labels@[0],
                forall|j: int|
                    0 <= j < labels@.len() ==> (#[trigger] self@.children[j]).probed(probes@[j])
                        == Some(labels@[j]),
                forall|j: int| 0 <= j < k ==> labels@[j] == first,
            decreases labels@.len() - k,
        {
            if !labels[k].same_as(&first) {
                assert(self@.children[k as int].probed(probes@[k as int]) != Some(first));
                return Err(Error::invalid("GPT labels differ"));
            }
            k += 1;
        }
        assert(all_probed_as(self@.children, probes@, first));
        assert(self@.children[0].probed(probes@[0]) == Some(first));
        Ok(first)
    }
}

} // verus!
