//! Backing devices as the controller sees them: a name and a geometry.
//!
//! The registry that resolves names to devices lives outside the controller.
//! What the controller consults is a [`DeviceRegistry`], a snapshot of the
//! devices that exist at the moment of the call.

use vstd::prelude::*;

verus! {

/// A resolved backing device: its name and its geometry.
#[derive(Debug, PartialEq, Eq)]
pub struct DeviceHandle {
    /// The name under which the registry knows the device.
    pub name: String,
    /// Bytes per block.
    pub block_len: u32,
    /// Number of blocks.
    pub num_blocks: u64,
    /// The alignment that buffers handed to the device must have.
    pub alignment: u32,
}

/// A [`DeviceHandle`] with its name as a sequence of characters.
pub struct DeviceView {
    pub name: Seq<char>,
    pub block_len: u32,
    pub num_blocks: u64,
    pub alignment: u32,
}

impl DeviceView {
    /// The capacity of the device in bytes.
    pub open spec fn capacity(self) -> int {
        self.num_blocks * self.block_len
    }

    /// Whether the device can hold `size` bytes.
    pub open spec fn fits(self, size: u64) -> bool {
        self.capacity() >= size
    }
}

impl View for DeviceHandle {
    type V = DeviceView;

    open spec fn view(&self) -> DeviceView {
        DeviceView {
            name: self.name@,
            block_len: self.block_len,
            num_blocks: self.num_blocks,
            alignment: self.alignment,
        }
    }
}

impl Clone for DeviceHandle {
    fn clone(&self) -> (copy: DeviceHandle)
        ensures
            copy == *self,
    {
        DeviceHandle {
            name: self.name.clone(),
            block_len: self.block_len,
            num_blocks: self.num_blocks,
            alignment: self.alignment,
        }
    }
}

impl DeviceHandle {
    /// A device called `name` with `num_blocks` blocks of `block_len` bytes.
    pub fn new(name: &str, block_len: u32, num_blocks: u64, alignment: u32) -> (device:
        DeviceHandle)
        ensures
            device@ == (DeviceView { name: name@, block_len, num_blocks, alignment }),
    {
        DeviceHandle { name: name.to_owned(), block_len, num_blocks, alignment }
    }

    /// Bytes per block.
    pub fn block_len(&self) -> (len: u32)
        ensures
            len == self@.block_len,
    {
        self.block_len
    }

    /// Number of blocks.
    pub fn num_blocks(&self) -> (blocks: u64)
        ensures
            blocks == self@.num_blocks,
    {
        self.num_blocks
    }

    /// The alignment that buffers handed to the device must have.
    pub fn alignment(&self) -> (alignment: u32)
        ensures
            alignment == self@.alignment,
    {
        self.alignment
    }

    /// The capacity of the device in bytes.
    pub fn size_in_bytes(&self) -> (bytes: u128)
        ensures
            bytes == self@.capacity(),
    {
        let blocks: u128 = self.num_blocks as u128;
        let len: u128 = self.block_len as u128;
        assert(blocks * len <= 0xffff_ffff_ffff_ffff * 0xffff_ffff) by (nonlinear_arith)
            requires
                0 <= blocks <= 0xffff_ffff_ffff_ffff,
                0 <= len <= 0xffff_ffff,
        ;
        blocks * len
    }

    /// Whether the device can hold `size` bytes.
    pub fn fits(&self, size: u64) -> (enough: bool)
        ensures
            enough == self@.fits(size),
    {
        self.size_in_bytes() >= size as u128
    }
}

/// Whether `i` is the place of the first device called `name`.
pub open spec fn first_device_named(devices: Seq<DeviceView>, name: Seq<char>, i: int) -> bool {
    &&& 0 <= i < devices.len()
    &&& devices[i].name == name
    &&& forall|j: int| 0 <= j < i ==> (#[trigger] devices[j]).name != name
}

/// The first device called `name`, if there is one.
pub open spec fn lookup_device(devices: Seq<DeviceView>, name: Seq<char>) -> Option<DeviceView> {
    if exists|i: int| first_device_named(devices, name, i) {
        Some(devices[choose|i: int| first_device_named(devices, name, i)])
    } else {
        None
    }
}

/// The devices that exist at one moment, in the order in which they were
/// recorded.
pub struct DeviceRegistry {
    devices: Vec<DeviceHandle>,
}

impl View for DeviceRegistry {
    type V = Seq<DeviceView>;

    closed spec fn view(&self) -> Seq<DeviceView> {
        Seq::new(self.devices@.len(), |i: int| self.devices@[i]@)
    }
}

impl DeviceRegistry {
    /// A registry without devices.
    pub fn new() -> (registry: DeviceRegistry)
        ensures
            registry@ == Seq::<DeviceView>::empty(),
    {
        DeviceRegistry { devices: Vec::new() }
    }

    /// Record one more device, behind those recorded before.
    pub fn add(&mut self, device: DeviceHandle)
        ensures
            final(self)@ == old(self)@.push(device@),
    {
        self.devices.push(device);
    }

    /// Number of devices recorded.
    pub fn len(&self) -> (n: usize)
        ensures
            n == self@.len(),
    {
        self.devices.len()
    }

    /// The first device called `name`, if there is one.
    pub fn lookup(&self, name: &str) -> (found: Option<DeviceHandle>)
        ensures
            match found {
                Some(device) => lookup_device(self@, name@) == Some(device@),
                None => lookup_device(self@, name@).is_none(),
            },
    {
        let wanted: String = name.to_owned();
        let mut i: usize = 0;
        while i < self.devices.len()
            invariant
                i <= self.devices.len(),
                wanted@ == name@,
                forall|j: int| 0 <= j < i ==> (#[trigger] self@[j]).name != name@,
            decreases self.devices.len() - i,
        {
            if self.devices[i].name == wanted {
                assert(first_device_named(self@, name@, i as int));
                return Some(self.devices[i].clone());
            }
            i += 1;
        }
        None
    }
}

} // verus!
