//! Capture of the input of one ledger transaction as a replayable artifact:
//! the keypairs of its signers, the accounts it touches as they stand before
//! it runs, and the transaction itself.
//!
//! The library decides and lays out; it does not touch the disk or a
//! harness. What depends on an oracle's answers comes in two forms: as a
//! machine that takes one answer at a time ([`archiver`], [`directory`]),
//! and run to its end against state held in memory ([`accounts`],
//! [`capture`]).
//!
//! - [`selection`] states which accounts are kept;
//! - [`archiver`] and [`accounts`] keep them;
//! - [`transaction`] finds the payer and writes the transaction down;
//! - [`keypairs`] and [`directory`] name keypair files and pick the slot;
//! - [`account`], [`address`], [`ledger`], [`text`] and [`layout`] hold the
//!   values and the text that the others are made of.

pub mod account;
pub mod accounts;
pub mod address;
pub mod archiver;
pub mod capture;
pub mod directory;
pub mod error;
pub mod keypairs;
pub mod layout;
pub mod ledger;
pub mod selection;
pub mod text;
pub mod transaction;
