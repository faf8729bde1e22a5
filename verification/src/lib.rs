//! A local credential store: named entries, each a password with an optional
//! user name and an optional URL, kept in one encrypted container that a
//! passphrase opens.
//!
//! The library decides and computes; it never touches a terminal, a file, a
//! keyring, a clipboard or a subprocess. Whoever uses it does those things
//! and reports what happened:
//!
//! * [`commands::Transaction`] takes a command from its first step to its
//!   last. Each [`commands::Step`] holds lines to print and an
//!   [`commands::Action`] to perform; the outcome of the action goes back
//!   in as an [`commands::Event`].
//! * [`utilities::Resolver`] does the same for the passphrase, which comes
//!   from the keyring or from the user.
//! * [`entries::load_entries`] and [`entries::save_entries`] turn the bytes
//!   of the container into a [`entries::Storage`] and back. The cipher is
//!   the `age` crate and the text inside is TOML, written and read by the
//!   `toml` crate; what is believed of the two crates without proof stands
//!   in [`utilities`] and [`text`].
//!
//! [`laws`] states what holds of all this for every input.

pub mod assoc;
pub mod cli;
pub mod commands;
pub mod entries;
pub mod error;
pub mod hooks;
pub mod keepass;
pub mod laws;
pub mod paths;
pub mod text;
pub mod utilities;
