//! Symbol demangling, a pure function supplied by an outside library.

use vstd::prelude::*;
use symbolic_common::Name;
use symbolic_demangle::{Demangle, DemangleOptions};

verus! {

/// The demangled form of a linker name.
pub uninterp spec fn demangled_of(name: Seq<char>) -> Seq<char>;

/// Relies on symbolic_demangle::Demangle::try_demangle with complete
/// options: the result depends on the symbol text alone, and an unrecognised
/// name comes back unchanged.
#[verifier::external_body]
pub fn demangle_symbol(symbol: &str) -> (r: String)
    ensures
        r@ == demangled_of(symbol@),
{
    let name = Name::from(symbol);
    let result = name.try_demangle(DemangleOptions::complete());
    result.to_string()
}

} // verus!
