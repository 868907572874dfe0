//! Verified core of a Cairo toolchain: diagnostics reporting, syntax key fields,
//! semantic variables, Sierra-to-CASM compilation bookkeeping and language-server decisions.

pub mod compiler;
pub mod diagnostics;
pub mod key_fields;
pub mod languageserver;
pub mod semantic;
