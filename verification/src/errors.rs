//! Error kinds for per-address symbolication failures.

use vstd::prelude::*;

verus! {

/// Why one address could not be resolved.
///
/// Address-arithmetic failures come from the relocation step; the DWARF
/// misses trigger a fallback to the symbol table; a symbol-table miss and an
/// unreadable DWARF string are terminal.
#[derive(Clone, Copy, Debug, PartialEq, Eq, Structural)]
pub enum SymbolizeError {
    /// The queried address lies below the load address.
    AddressUnderflow,
    /// Re-sliding the address past the `__TEXT` base left the 64-bit range.
    AddressOverflow,
    /// No `.debug_aranges` entry covers the search address.
    ArangeMiss,
    /// The arange pointed at a compilation unit that could not be opened.
    UnitMiss,
    /// No subprogram entry of the selected unit covers the search address.
    SubprogramNotFound,
    /// The line program of the selected unit yielded no straddled row.
    LineNotFound,
    /// A DWARF string table was unreadable for the selected attribute.
    StringDecoding,
    /// The symbol map is empty or the address lies below its first symbol.
    SymbolNotFound,
}

impl SymbolizeError {
    /// The reason as diagnostic text, one fixed phrase per kind.
    pub fn message(&self) -> (r: &'static str)
        ensures
            r@ == self.spec_message(),
    {
        match self {
            SymbolizeError::AddressUnderflow => "sub load_address overflow",
            SymbolizeError::AddressOverflow => "add text_vmaddr overflow",
            SymbolizeError::ArangeMiss => "can not find arange",
            SymbolizeError::UnitMiss => "can not find compilation unit",
            SymbolizeError::SubprogramNotFound => "can not find subprogram",
            SymbolizeError::LineNotFound => "can not find line",
            SymbolizeError::StringDecoding => "can not decode string",
            SymbolizeError::SymbolNotFound => "failed search symbol",
        }
    }

    /// The text that `message` returns for each kind.
    pub open spec fn spec_message(self) -> Seq<char> {
        match self {
            SymbolizeError::AddressUnderflow => "sub load_address overflow"@,
            SymbolizeError::AddressOverflow => "add text_vmaddr overflow"@,
            SymbolizeError::ArangeMiss => "can not find arange"@,
            SymbolizeError::UnitMiss => "can not find compilation unit"@,
            SymbolizeError::SubprogramNotFound => "can not find subprogram"@,
            SymbolizeError::LineNotFound => "can not find line"@,
            SymbolizeError::StringDecoding => "can not decode string"@,
            SymbolizeError::SymbolNotFound => "failed search symbol"@,
        }
    }

    /// A DWARF miss allows a downgrade to the symbol-table path; address
    /// arithmetic failures are retried there with the same outcome, and an
    /// unreadable string is terminal because the unit was already identified.
    pub open spec fn spec_allows_fallback(self) -> bool {
        match self {
            SymbolizeError::StringDecoding => false,
            _ => true,
        }
    }

    /// Whether a symbol-table downgrade may follow this failure.
    pub fn allows_fallback(&self) -> (r: bool)
        ensures
            r == self.spec_allows_fallback(),
    {
        match self {
            SymbolizeError::StringDecoding => false,
            _ => true,
        }
    }
}

} // verus!
