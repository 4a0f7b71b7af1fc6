//! The core of an RFC viewer: markup extraction, paragraph reflow and the
//! decisions of the lookup route, each with a contract that Verus proves.
//!
//! Fetching pages and serving them is left to the program around this crate.

pub mod decimal;
pub mod dom;
pub mod extract;
pub mod extract_laws;
pub mod lookup;
pub mod reflow;
pub mod reflow_laws;
pub mod rfc_parser;
pub mod text;
