//! Child lifecycle and membership of a nexus: a virtual block device that
//! mirrors its data over a set of backing devices, its children.
//!
//! The controller in [`nexus`] owns the ordered list of children and is the
//! only place where that list changes. Every operation is a plain function
//! from the current state (and, where a device driver or a registry was
//! consulted first, from what it answered) to the next state; the
//! asynchronous work around it belongs to the caller.

pub mod channel;
pub mod child;
pub mod device;
pub mod error;
pub mod label;
pub mod laws;
pub mod machine;
pub mod model;
pub mod nexus;
pub mod nvmf;
