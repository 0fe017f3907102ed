//! Relocation arithmetic: runtime address to file-relative search address.

use vstd::prelude::*;
use crate::errors::SymbolizeError;

verus! {

/// What `get_search_address` yields, over unbounded integers.
pub open spec fn spec_search_address(
    address: u64,
    load_address: u64,
    text_vmaddr: u64,
    offset: bool,
) -> Result<u64, SymbolizeError> {
    if address < load_address {
        Err(SymbolizeError::AddressUnderflow)
    } else if !offset {
        Ok(address)
    } else if address - load_address + text_vmaddr > u64::MAX {
        Err(SymbolizeError::AddressOverflow)
    } else {
        Ok((address - load_address + text_vmaddr) as u64)
    }
}

/// Turn a runtime address into the file-relative search address.
///
/// The address is first de-slid by the image load address, with checked
/// subtraction as a validity test. In offset mode the de-slid value is then
/// re-slid into the binary's native `__TEXT` VM space, with checked addition;
/// otherwise the caller already supplied a file-relative address, which is
/// returned untouched.
pub fn get_search_address(
    address: u64,
    load_address: u64,
    text_vmaddr: u64,
    offset: bool,
) -> (r: Result<u64, SymbolizeError>)
    ensures
        r == spec_search_address(address, load_address, text_vmaddr, offset),
        address < load_address ==> r == Err::<u64, SymbolizeError>(
            SymbolizeError::AddressUnderflow,
        ),
        address >= load_address && !offset ==> r == Ok::<u64, SymbolizeError>(address),
        address >= load_address && offset && address - load_address + text_vmaddr <= u64::MAX
            ==> r == Ok::<u64, SymbolizeError>((address - load_address + text_vmaddr) as u64),
        address >= load_address && offset && address - load_address + text_vmaddr > u64::MAX
            ==> r == Err::<u64, SymbolizeError>(SymbolizeError::AddressOverflow),
{
    match address.checked_sub(load_address) {
        Some(subed_address) => {
            if offset {
                match subed_address.checked_add(text_vmaddr) {
                    Some(d) => Ok(d),
                    None => Err(SymbolizeError::AddressOverflow),
                }
            } else {
                Ok(address)
            }
        },
        None => Err(SymbolizeError::AddressUnderflow),
    }
}

} // verus!
