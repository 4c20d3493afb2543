//! The label that every child carries in its reserved region.

use vstd::prelude::*;

verus! {

/// The on-disk label of a child. The controller never looks inside it: all
/// it needs is to tell whether two labels are the same.
#[derive(Clone, Copy, Debug, PartialEq, Eq, Structural)]
pub struct NexusLabel {
    /// Identifier of the disk the label was written for.
    pub guid: u128,
    /// First block that holds data.
    pub lba_start: u64,
    /// Last block that holds data.
    pub lba_end: u64,
}

impl NexusLabel {
    /// A label for the disk `guid` whose data occupies `lba_start..=lba_end`.
    pub fn new(guid: u128, lba_start: u64, lba_end: u64) -> (label: NexusLabel)
        ensures
            label == (NexusLabel { guid, lba_start, lba_end }),
    {
        NexusLabel { guid, lba_start, lba_end }
    }

    /// Whether both labels describe the same disk layout.
    pub fn same_as(&self, other: &NexusLabel) -> (same: bool)
        ensures
            same == (*self == *other),
    {
        self.guid == other.guid && self.lba_start == other.lba_start && self.lba_end
            == other.lba_end
    }
}

} // verus!
