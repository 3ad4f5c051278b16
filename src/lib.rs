//! Runtime-checked borrowing of host-owned binary buffers.
//!
//! A [`ledger::Ledger`] records, per buffer identity, whether the buffer is
//! currently lent out shared (with a count) or exclusively. Guards returned by
//! the ledger carry a [`binary::BinaryData`] view of the buffer; releasing a
//! guard gives its entry back. [`store::Store`] holds the buffers themselves,
//! including buffers adopted from natively owned byte containers.

pub mod access;
pub mod arraybuffer;
pub mod binary;
pub mod buffer;
pub mod ledger;
pub mod store;
