//! Export scanning and preset tables for import synthesis.
//!
//! Given the export events of one source file, the scanner lists the symbols
//! that the file offers to importers. The preset table names the symbols of
//! well-known packages whose sources are not scanned.

pub mod naming;
pub mod scan;
pub mod presets;
