//! Enumeration of nearby Wi-Fi networks.
//!
//! The library parses the tabular text that a wireless-scan command prints:
//! the first line is a column header and is discarded, every further line is
//! split on runs of whitespace, and on lines with at least three tokens the
//! second token is taken as the SSID of a discovered network.  A shell around
//! the library runs the external command and renders the resulting list.

pub mod counter;
pub mod lister;
pub mod parse;
