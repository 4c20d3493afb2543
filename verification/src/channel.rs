//! What the controller tells the per-worker I/O channels.
//!
//! Every worker keeps a routing table of its own: the children it may send
//! I/O to. The controller never touches those tables. It records an event
//! for each change of membership, and whoever drives the channels delivers
//! the events, in the order in which they were recorded, and has each
//! channel rebuild its table from the children that are open at that
//! moment.

use crate::child::{ChildState, ChildView};
use vstd::prelude::*;

verus! {

/// A change of membership that the channels have to follow.
#[derive(Clone, Copy, Debug, PartialEq, Eq, Structural)]
pub enum DREvent {
    /// A child was closed and no longer serves I/O.
    ChildOffline,
    /// A child was opened again.
    ChildOnline,
    /// A child was taken out of service.
    ChildFault,
    /// A child joined the nexus.
    ChildAdd,
    /// A child left the nexus.
    ChildRemove,
}

/// Whether `table` lists the places of the open children, each once and in
/// rising order.
pub open spec fn routes_open_children(children: Seq<ChildView>, table: Seq<usize>) -> bool {
    &&& forall|a: int, b: int| 0 <= a < b < table.len() ==> table[a] < table[b]
    &&& forall|a: int|
        0 <= a < table.len() ==> {
            &&& table[a] < children.len()
            &&& (#[trigger] children[table[a] as int]).state == ChildState::Open
        }
    &&& forall|k: int|
        0 <= k < children.len() && (#[trigger] children[k]).state == ChildState::Open
            ==> table.contains(k as usize)
}

} // verus!
