//! Index units: baskets of underlying assets with fixed weights, bought with
//! and sold for those assets, and transferred between accounts.
//!
//! [`module::Module`] holds the registry of indexes and the ledger of index
//! units; [`ledger::Ledger`] is the table of balances that serves both for
//! index units and for the underlying assets. Every operation is verified
//! against a spec function that says what it does, and [`laws`] states what
//! follows for the operations together.

pub mod backing;
pub mod index;
pub mod laws;
pub mod ledger;
pub mod module;
pub mod sum;

pub use index::{AssetId, Component, Definition, IndexId, StoneIndex, StoneIndexComponent};
pub use ledger::{AccountId, Balance, Ledger};
pub use module::{Error, Event, Module};
