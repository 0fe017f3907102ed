//! Offline address symbolizer for Mach-O images and their dSYM companions.
//!
//! Given a binary image, a runtime load address and a list of
//! instruction-pointer addresses, the library produces for each address a
//! human-readable symbolication: the demangled function name, the containing
//! object file and, when debug information is present, the source file and
//! line number.

pub mod address;
pub mod demangle;
pub mod dwarf_info;
pub mod errors;
pub mod format;
pub mod object_info;
pub mod parse_input;
pub mod symbolize;
