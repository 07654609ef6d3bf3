//! Interactive browser core for locally installed software packages.
//!
//! The library holds everything that can be reasoned about without a
//! terminal: the backend contract (which package managers exist, which
//! commands they answer to), the parsers that turn their listing output
//! into structured records, the catalog with its selection state machine,
//! the detail-text rules, and the event-to-action step function of the
//! interaction loop.  Process spawning and drawing live outside, in the
//! binary that wraps this crate.

pub mod backend;
pub mod catalog;
pub mod detail;
pub mod interaction;
pub mod package;
pub mod parser;
pub mod text;
