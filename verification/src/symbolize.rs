//! Orchestration: per-address resolution, DWARF path with symbol-table
//! fallback, and aggregation in input order.

use vstd::prelude::*;
use crate::address::{get_search_address, spec_search_address};
use crate::demangle::{demangle_symbol, demangled_of};
use crate::dwarf_info::{
    find_arange, find_subprogram, find_unit, scan_line_rows, spec_find_arange,
    spec_find_subprogram, spec_find_unit, spec_line_lookup, ArangeEntry, CompilationUnit,
    DwarfModel,
};
use crate::errors::SymbolizeError;
use crate::format::{
    format_dwarf_result, format_symbol_result, spec_dwarf_result, spec_symbol_result,
};
use crate::object_info::{
    has_section_of, is_object_dwarf, lookup_symbol, object_segments, find_text_vmaddr,
    spec_text_vmaddr_of, sym_hit_of,
};

verus! {

/// One successfully resolved address: the input address untransformed, and
/// the formatted symbolication.
pub struct ResponseResult {
    pub address: u64,
    pub result: String,
}

/// One load address with the addresses to be resolved against it.
pub struct GroupAddress {
    pub load_address: u64,
    pub addresses: Vec<u64>,
}

/// What the DWARF path yields for one address: the search address is
/// computed, an arange picks the compilation unit, the unit's subprogram
/// walk names the function, the line rows give the source position, and the
/// demangled result is formatted.
pub open spec fn spec_dwarf_symbolize(
    aranges: Seq<ArangeEntry>,
    units: Seq<CompilationUnit>,
    object_filename: Seq<char>,
    load_address: u64,
    address: u64,
    text_vmaddr: u64,
    offset: bool,
) -> Result<Seq<char>, SymbolizeError> {
    match spec_search_address(address, load_address, text_vmaddr, offset) {
        Err(e) => Err(e),
        Ok(search) => match spec_find_arange(aranges, search) {
            None => Err(SymbolizeError::ArangeMiss),
            Some(info_offset) => match spec_find_unit(units, info_offset) {
                None => Err(SymbolizeError::UnitMiss),
                Some(u) => match spec_find_subprogram(units[u].subprograms@, search) {
                    Err(e) => Err(e),
                    Ok(name) => match spec_line_lookup(units[u].rows@, search) {
                        None => Err(SymbolizeError::LineNotFound),
                        Some(hit) => Ok(
                            spec_dwarf_result(
                                demangled_of(name),
                                object_filename,
                                hit.0,
                                hit.1,
                            ),
                        ),
                    },
                },
            },
        },
    }
}

/// Resolve one address against the DWARF model: aranges, then the unit's
/// subprogram entries, then its line rows.
pub fn dwarf_symbolize_address(
    dwarf: &DwarfModel,
    object_filename: &str,
    load_address: u64,
    address: u64,
    text_vmaddr: u64,
    offset: bool,
) -> (r: Result<String, SymbolizeError>)
    ensures
        match r {
            Ok(s) => spec_dwarf_symbolize(
                dwarf.aranges@,
                dwarf.units@,
                object_filename@,
                load_address,
                address,
                text_vmaddr,
                offset,
            ) == Ok::<Seq<char>, SymbolizeError>(s@),
            Err(e) => spec_dwarf_symbolize(
                dwarf.aranges@,
                dwarf.units@,
                object_filename@,
                load_address,
                address,
                text_vmaddr,
                offset,
            ) == Err::<Seq<char>, SymbolizeError>(e),
        },
{
    let search = match get_search_address(address, load_address, text_vmaddr, offset) {
        Ok(s) => s,
        Err(e) => {
            return Err(e);
        },
    };
    let info_offset = match find_arange(&dwarf.aranges, search) {
        Some(o) => o,
        None => {
            return Err(SymbolizeError::ArangeMiss);
        },
    };
    let unit_index = match find_unit(&dwarf.units, info_offset) {
        Some(u) => u,
        None => {
            return Err(SymbolizeError::UnitMiss);
        },
    };
    let unit = &dwarf.units[unit_index];
    let name = match find_subprogram(&unit.subprograms, search) {
        Ok(n) => n,
        Err(e) => {
            return Err(e);
        },
    };
    let (file, line) = match scan_line_rows(&unit.rows, search) {
        Some(hit) => hit,
        None => {
            return Err(SymbolizeError::LineNotFound);
        },
    };
    let demangled = demangle_symbol(name.as_str());
    Ok(format_dwarf_result(demangled.as_str(), object_filename, file.as_str(), line))
}

/// Format a symbol-map hit: the name demangled, the object file, and the
/// distance from the symbol's address to the search address.
pub fn symbolize_symbol_hit(
    name: &str,
    object_filename: &str,
    search_address: u64,
    symbol_address: u64,
) -> (r: String)
    requires
        symbol_address <= search_address,
    ensures
        r@ == spec_symbol_result(
            demangled_of(name@),
            object_filename@,
            (search_address - symbol_address) as u64,
        ),
{
    let demangled = demangle_symbol(name);
    format_symbol_result(demangled.as_str(), object_filename, search_address - symbol_address)
}

/// What the symbol-table path yields for one address: the nearest preceding
/// symbol of the image's symbol map, demangled, with the offset into it.
pub open spec fn spec_symbol_symbolize(
    data: Seq<u8>,
    object_filename: Seq<char>,
    load_address: u64,
    address: u64,
    text_vmaddr: u64,
    offset: bool,
) -> Result<Seq<char>, SymbolizeError> {
    match spec_search_address(address, load_address, text_vmaddr, offset) {
        Err(e) => Err(e),
        Ok(search) => match sym_hit_of(data, search) {
            None => Err(SymbolizeError::SymbolNotFound),
            Some(hit) => Ok(
                spec_symbol_result(
                    demangled_of(hit.0),
                    object_filename,
                    (search - hit.1) as u64,
                ),
            ),
        },
    }
}

/// Resolve one address against the image's symbol map.
pub fn symbol_symbolize_address(
    data: &[u8],
    object_filename: &str,
    load_address: u64,
    address: u64,
    text_vmaddr: u64,
    offset: bool,
) -> (r: Result<ResponseResult, SymbolizeError>)
    ensures
        match r {
            Ok(rr) => rr.address == address && spec_symbol_symbolize(
                data@,
                object_filename@,
                load_address,
                address,
                text_vmaddr,
                offset,
            ) == Ok::<Seq<char>, SymbolizeError>(rr.result@),
            Err(e) => spec_symbol_symbolize(
                data@,
                object_filename@,
                load_address,
                address,
                text_vmaddr,
                offset,
            ) == Err::<Seq<char>, SymbolizeError>(e),
        },
{
    let search = match get_search_address(address, load_address, text_vmaddr, offset) {
        Ok(s) => s,
        Err(e) => {
            return Err(e);
        },
    };
    match lookup_symbol(data, search) {
        Some(hit) => {
            let result = symbolize_symbol_hit(hit.0.as_str(), object_filename, search, hit.1);
            Ok(ResponseResult { address, result })
        },
        None => Err(SymbolizeError::SymbolNotFound),
    }
}

/// What one address yields under the full policy: the DWARF path when the
/// image carries debug information, downgraded per address to the symbol
/// table on a DWARF miss; the symbol table alone otherwise.
pub open spec fn spec_symbolize_address(
    data: Seq<u8>,
    aranges: Seq<ArangeEntry>,
    units: Seq<CompilationUnit>,
    object_filename: Seq<char>,
    load_address: u64,
    address: u64,
    text_vmaddr: u64,
    offset: bool,
) -> Result<Seq<char>, SymbolizeError> {
    if has_section_of(data, "__debug_line"@) {
        match spec_dwarf_symbolize(
            aranges,
            units,
            object_filename,
            load_address,
            address,
            text_vmaddr,
            offset,
        ) {
            Ok(s) => Ok(s),
            Err(e) => if e.spec_allows_fallback() {
                spec_symbol_symbolize(
                    data,
                    object_filename,
                    load_address,
                    address,
                    text_vmaddr,
                    offset,
                )
            } else {
                Err(e)
            },
        }
    } else {
        spec_symbol_symbolize(data, object_filename, load_address, address, text_vmaddr, offset)
    }
}

/// Resolve one address, with the per-address downgrade from the DWARF path
/// to the symbol table.
pub fn symbolize_address(
    data: &[u8],
    dwarf: &DwarfModel,
    object_filename: &str,
    load_address: u64,
    address: u64,
    text_vmaddr: u64,
    offset: bool,
) -> (r: Result<ResponseResult, SymbolizeError>)
    ensures
        match r {
            Ok(rr) => rr.address == address && spec_symbolize_address(
                data@,
                dwarf.aranges@,
                dwarf.units@,
                object_filename@,
                load_address,
                address,
                text_vmaddr,
                offset,
            ) == Ok::<Seq<char>, SymbolizeError>(rr.result@),
            Err(e) => spec_symbolize_address(
                data@,
                dwarf.aranges@,
                dwarf.units@,
                object_filename@,
                load_address,
                address,
                text_vmaddr,
                offset,
            ) == Err::<Seq<char>, SymbolizeError>(e),
        },
{
    if is_object_dwarf(data) {
        match dwarf_symbolize_address(
            dwarf,
            object_filename,
            load_address,
            address,
            text_vmaddr,
            offset,
        ) {
            Ok(result) => Ok(ResponseResult { address, result }),
            Err(e) => {
                if e.allows_fallback() {
                    symbol_symbolize_address(
                        data,
                        object_filename,
                        load_address,
                        address,
                        text_vmaddr,
                        offset,
                    )
                } else {
                    Err(e)
                }
            },
        }
    } else {
        symbol_symbolize_address(data, object_filename, load_address, address, text_vmaddr, offset)
    }
}

/// The successful resolutions of an address list, in input order, as pairs
/// of the echoed address and the result text.
pub open spec fn spec_symbolize_list(
    data: Seq<u8>,
    aranges: Seq<ArangeEntry>,
    units: Seq<CompilationUnit>,
    object_filename: Seq<char>,
    load_address: u64,
    addresses: Seq<u64>,
    text_vmaddr: u64,
    offset: bool,
) -> Seq<(u64, Seq<char>)>
    decreases addresses.len(),
{
    if addresses.len() == 0 {
        Seq::empty()
    } else {
        let head = match spec_symbolize_address(
            data,
            aranges,
            units,
            object_filename,
            load_address,
            addresses[0],
            text_vmaddr,
            offset,
        ) {
            Ok(s) => seq![(addresses[0], s)],
            Err(_) => Seq::empty(),
        };
        head + spec_symbolize_list(
            data,
            aranges,
            units,
            object_filename,
            load_address,
            addresses.drop_first(),
            text_vmaddr,
            offset,
        )
    }
}

/// The diagnostics of the failed resolutions, in input order.
pub open spec fn spec_symbolize_diags(
    data: Seq<u8>,
    aranges: Seq<ArangeEntry>,
    units: Seq<CompilationUnit>,
    object_filename: Seq<char>,
    load_address: u64,
    addresses: Seq<u64>,
    text_vmaddr: u64,
    offset: bool,
) -> Seq<Seq<char>>
    decreases addresses.len(),
{
    if addresses.len() == 0 {
        Seq::empty()
    } else {
        let head = match spec_symbolize_address(
            data,
            aranges,
            units,
            object_filename,
            load_address,
            addresses[0],
            text_vmaddr,
            offset,
        ) {
            Ok(_) => Seq::<Seq<char>>::empty(),
            Err(e) => seq!["N/A - "@ + e.spec_message()],
        };
        head + spec_symbolize_diags(
            data,
            aranges,
            units,
            object_filename,
            load_address,
            addresses.drop_first(),
            text_vmaddr,
            offset,
        )
    }
}

/// The plain view of a result row.
pub open spec fn rr_view(rr: ResponseResult) -> (u64, Seq<char>) {
    (rr.address, rr.result@)
}

/// Resolve an address list against one load address. Successes are
/// aggregated in input order; each failure is dropped from the output and
/// leaves one `N/A - <reason>` diagnostic line, in input order.
pub fn symbolize_addresses(
    data: &[u8],
    dwarf: &DwarfModel,
    object_filename: &str,
    load_address: u64,
    addresses: &Vec<u64>,
    offset: bool,
) -> (r: (Vec<ResponseResult>, Vec<String>))
    ensures
        r.0@.map_values(|rr: ResponseResult| rr_view(rr)) == spec_symbolize_list(
            data@,
            dwarf.aranges@,
            dwarf.units@,
            object_filename@,
            load_address,
            addresses@,
            spec_text_vmaddr_of(data@),
            offset,
        ),
        r.1@.map_values(|d: String| d@) == spec_symbolize_diags(
            data@,
            dwarf.aranges@,
            dwarf.units@,
            object_filename@,
            load_address,
            addresses@,
            spec_text_vmaddr_of(data@),
            offset,
        ),
{
    let segments = object_segments(data);
    let text_vmaddr = find_text_vmaddr(&segments);
    let mut results: Vec<ResponseResult> = Vec::new();
    let mut diags: Vec<String> = Vec::new();
    let n = addresses.len();
    let ghost full_list = spec_symbolize_list(
        data@,
        dwarf.aranges@,
        dwarf.units@,
        object_filename@,
        load_address,
        addresses@,
        text_vmaddr,
        offset,
    );
    let ghost full_diags = spec_symbolize_diags(
        data@,
        dwarf.aranges@,
        dwarf.units@,
        object_filename@,
        load_address,
        addresses@,
        text_vmaddr,
        offset,
    );
    proof {
        assert(addresses@.subrange(0, n as int) =~= addresses@);
    }
    for i in 0..n
        invariant
            n == addresses@.len(),
            text_vmaddr == spec_text_vmaddr_of(data@),
            full_list == spec_symbolize_list(
                data@,
                dwarf.aranges@,
                dwarf.units@,
                object_filename@,
                load_address,
                addresses@,
                text_vmaddr,
                offset,
            ),
            full_diags == spec_symbolize_diags(
                data@,
                dwarf.aranges@,
                dwarf.units@,
                object_filename@,
                load_address,
                addresses@,
                text_vmaddr,
                offset,
            ),
            full_list == results@.map_values(|rr: ResponseResult| rr_view(rr))
                + spec_symbolize_list(
                data@,
                dwarf.aranges@,
                dwarf.units@,
                object_filename@,
                load_address,
                addresses@.subrange(i as int, n as int),
                text_vmaddr,
                offset,
            ),
            full_diags == diags@.map_values(|d: String| d@) + spec_symbolize_diags(
                data@,
                dwarf.aranges@,
                dwarf.units@,
                object_filename@,
                load_address,
                addresses@.subrange(i as int, n as int),
                text_vmaddr,
                offset,
            ),
    {
        proof {
            assert(addresses@.subrange(i as int, n as int)[0] == addresses@[i as int]);
            assert(addresses@.subrange(i as int, n as int).drop_first() =~= addresses@.subrange(
                i as int + 1,
                n as int,
            ));
        }
        let address = addresses[i];
        let ghost prev_results = results@.map_values(|rr: ResponseResult| rr_view(rr));
        let ghost prev_diags = diags@.map_values(|d: String| d@);
        let ghost rest = spec_symbolize_list(
            data@,
            dwarf.aranges@,
            dwarf.units@,
            object_filename@,
            load_address,
            addresses@.subrange(i as int + 1, n as int),
            text_vmaddr,
            offset,
        );
        let ghost rest_diags = spec_symbolize_diags(
            data@,
            dwarf.aranges@,
            dwarf.units@,
            object_filename@,
            load_address,
            addresses@.subrange(i as int + 1, n as int),
            text_vmaddr,
            offset,
        );
        match symbolize_address(
            data,
            dwarf,
            object_filename,
            load_address,
            address,
            text_vmaddr,
            offset,
        ) {
            Ok(rr) => {
                proof {
                    assert(full_list =~= prev_results + (seq![(address, rr.result@)] + rest));
                    assert(prev_results.push((address, rr.result@)) + rest =~= prev_results + (
                    seq![(address, rr.result@)] + rest));
                    assert(full_diags =~= prev_diags + rest_diags);
                }
                results.push(rr);
                proof {
                    assert(results@.drop_last() =~= results@.subrange(
                        0,
                        results@.len() - 1,
                    ));
                    assert(results@.map_values(|rr: ResponseResult| rr_view(rr)) =~= prev_results
                        .push(rr_view(results@.last())));
                }
            },
            Err(e) => {
                let mut diag: String = "N/A - ".to_owned();
                diag.append(e.message());
                proof {
                    assert(diag@ == "N/A - "@ + e.spec_message());
                    assert(full_diags =~= prev_diags + (seq![diag@] + rest_diags));
                    assert(prev_diags.push(diag@) + rest_diags =~= prev_diags + (seq![diag@]
                        + rest_diags));
                    assert(full_list =~= prev_results + rest);
                }
                diags.push(diag);
                proof {
                    assert(diags@.map_values(|d: String| d@) =~= prev_diags.push(
                        diags@.last()@,
                    ));
                }
            },
        }
    }
    proof {
        assert(addresses@.subrange(n as int, n as int).len() == 0);
        assert(results@.map_values(|rr: ResponseResult| rr_view(rr)) =~= full_list);
        assert(diags@.map_values(|d: String| d@) =~= full_diags);
    }
    (results, diags)
}

/// The successful resolutions of all groups, in group order and in input
/// order within each group, each group against its own load address.
pub open spec fn spec_symbolize_groups(
    data: Seq<u8>,
    aranges: Seq<ArangeEntry>,
    units: Seq<CompilationUnit>,
    object_filename: Seq<char>,
    groups: Seq<GroupAddress>,
    offset: bool,
) -> Seq<(u64, Seq<char>)>
    decreases groups.len(),
{
    if groups.len() == 0 {
        Seq::empty()
    } else {
        spec_symbolize_list(
            data,
            aranges,
            units,
            object_filename,
            groups[0].load_address,
            groups[0].addresses@,
            spec_text_vmaddr_of(data),
            offset,
        ) + spec_symbolize_groups(
            data,
            aranges,
            units,
            object_filename,
            groups.drop_first(),
            offset,
        )
    }
}

/// The diagnostics of all groups, in the same order.
pub open spec fn spec_symbolize_groups_diags(
    data: Seq<u8>,
    aranges: Seq<ArangeEntry>,
    units: Seq<CompilationUnit>,
    object_filename: Seq<char>,
    groups: Seq<GroupAddress>,
    offset: bool,
) -> Seq<Seq<char>>
    decreases groups.len(),
{
    if groups.len() == 0 {
        Seq::empty()
    } else {
        spec_symbolize_diags(
            data,
            aranges,
            units,
            object_filename,
            groups[0].load_address,
            groups[0].addresses@,
            spec_text_vmaddr_of(data),
            offset,
        ) + spec_symbolize_groups_diags(
            data,
            aranges,
            units,
            object_filename,
            groups.drop_first(),
            offset,
        )
    }
}

/// Resolve grouped addresses, each group against its own load address,
/// aggregating the successes into one list in input order and the
/// diagnostics alongside.
pub fn symbolize_groups(
    data: &[u8],
    dwarf: &DwarfModel,
    object_filename: &str,
    groups: &Vec<GroupAddress>,
    offset: bool,
) -> (r: (Vec<ResponseResult>, Vec<String>))
    ensures
        r.0@.map_values(|rr: ResponseResult| rr_view(rr)) == spec_symbolize_groups(
            data@,
            dwarf.aranges@,
            dwarf.units@,
            object_filename@,
            groups@,
            offset,
        ),
        r.1@.map_values(|d: String| d@) == spec_symbolize_groups_diags(
            data@,
            dwarf.aranges@,
            dwarf.units@,
            object_filename@,
            groups@,
            offset,
        ),
{
    let mut results: Vec<ResponseResult> = Vec::new();
    let mut diags: Vec<String> = Vec::new();
    let n = groups.len();
    let ghost full = spec_symbolize_groups(
        data@,
        dwarf.aranges@,
        dwarf.units@,
        object_filename@,
        groups@,
        offset,
    );
    let ghost full_diags = spec_symbolize_groups_diags(
        data@,
        dwarf.aranges@,
        dwarf.units@,
        object_filename@,
        groups@,
        offset,
    );
    proof {
        assert(groups@.subrange(0, n as int) =~= groups@);
    }
    for i in 0..n
        invariant
            n == groups@.len(),
            full == spec_symbolize_groups(
                data@,
                dwarf.aranges@,
                dwarf.units@,
                object_filename@,
                groups@,
                offset,
            ),
            full == results@.map_values(|rr: ResponseResult| rr_view(rr))
                + spec_symbolize_groups(
                data@,
                dwarf.aranges@,
                dwarf.units@,
                object_filename@,
                groups@.subrange(i as int, n as int),
                offset,
            ),
            full_diags == spec_symbolize_groups_diags(
                data@,
                dwarf.aranges@,
                dwarf.units@,
                object_filename@,
                groups@,
                offset,
            ),
            full_diags == diags@.map_values(|d: String| d@) + spec_symbolize_groups_diags(
                data@,
                dwarf.aranges@,
                dwarf.units@,
                object_filename@,
                groups@.subrange(i as int, n as int),
                offset,
            ),
    {
        proof {
            assert(groups@.subrange(i as int, n as int)[0] == groups@[i as int]);
            assert(groups@.subrange(i as int, n as int).drop_first() =~= groups@.subrange(
                i as int + 1,
                n as int,
            ));
        }
        let ghost prev_results = results@.map_values(|rr: ResponseResult| rr_view(rr));
        let ghost prev_diags = diags@.map_values(|d: String| d@);
        let group = &groups[i];
        let (mut group_results, mut group_diags) = symbolize_addresses(
            data,
            dwarf,
            object_filename,
            group.load_address,
            &group.addresses,
            offset,
        );
        let ghost group_view = group_results@.map_values(|rr: ResponseResult| rr_view(rr));
        let ghost group_diags_view = group_diags@.map_values(|d: String| d@);
        results.append(&mut group_results);
        diags.append(&mut group_diags);
        proof {
            assert(results@.map_values(|rr: ResponseResult| rr_view(rr)) =~= prev_results
                + group_view);
            assert(diags@.map_values(|d: String| d@) =~= prev_diags + group_diags_view);
            assert(prev_results + group_view + spec_symbolize_groups(
                data@,
                dwarf.aranges@,
                dwarf.units@,
                object_filename@,
                groups@.subrange(i as int + 1, n as int),
                offset,
            ) =~= prev_results + (group_view + spec_symbolize_groups(
                data@,
                dwarf.aranges@,
                dwarf.units@,
                object_filename@,
                groups@.subrange(i as int + 1, n as int),
                offset,
            )));
            assert(prev_diags + group_diags_view + spec_symbolize_groups_diags(
                data@,
                dwarf.aranges@,
                dwarf.units@,
                object_filename@,
                groups@.subrange(i as int + 1, n as int),
                offset,
            ) =~= prev_diags + (group_diags_view + spec_symbolize_groups_diags(
                data@,
                dwarf.aranges@,
                dwarf.units@,
                object_filename@,
                groups@.subrange(i as int + 1, n as int),
                offset,
            )));
        }
    }
    proof {
        assert(groups@.subrange(n as int, n as int).len() == 0);
        assert(results@.map_values(|rr: ResponseResult| rr_view(rr)) =~= full);
        assert(diags@.map_values(|d: String| d@) =~= full_diags);
    }
    (results, diags)
}

/// Law: for an image that carries DWARF, an address whose DWARF lookup
/// fails short of a string-decoding error, and whose symbol map holds a hit
/// for the search address, resolves to the symbol-table format.
pub proof fn lemma_fallback(
    data: Seq<u8>,
    aranges: Seq<ArangeEntry>,
    units: Seq<CompilationUnit>,
    object_filename: Seq<char>,
    load_address: u64,
    address: u64,
    text_vmaddr: u64,
    offset: bool,
    dwarf_err: SymbolizeError,
    search: u64,
    hit: (Seq<char>, u64),
)
    requires
        has_section_of(data, "__debug_line"@),
        spec_dwarf_symbolize(
            aranges,
            units,
            object_filename,
            load_address,
            address,
            text_vmaddr,
            offset,
        ) == Err::<Seq<char>, SymbolizeError>(dwarf_err),
        dwarf_err.spec_allows_fallback(),
        spec_search_address(address, load_address, text_vmaddr, offset) == Ok::<
            u64,
            SymbolizeError,
        >(search),
        sym_hit_of(data, search) == Some(hit),
    ensures
        spec_symbolize_address(
            data,
            aranges,
            units,
            object_filename,
            load_address,
            address,
            text_vmaddr,
            offset,
        ) == Ok::<Seq<char>, SymbolizeError>(
            spec_symbol_result(demangled_of(hit.0), object_filename, (search - hit.1) as u64),
        ),
{
}

/// Whether `xs` appears within `ys` in order.
pub open spec fn is_subsequence<T>(xs: Seq<T>, ys: Seq<T>) -> bool
    decreases xs.len(), ys.len(),
{
    if xs.len() == 0 {
        true
    } else if ys.len() == 0 {
        false
    } else {
        (xs[0] == ys[0] && is_subsequence(xs.drop_first(), ys.drop_first())) || is_subsequence(
            xs,
            ys.drop_first(),
        )
    }
}

/// Law: the addresses of the successful resolutions appear in the same
/// relative order as in the input list.
pub proof fn lemma_order_preserved(
    data: Seq<u8>,
    aranges: Seq<ArangeEntry>,
    units: Seq<CompilationUnit>,
    object_filename: Seq<char>,
    load_address: u64,
    addresses: Seq<u64>,
    text_vmaddr: u64,
    offset: bool,
)
    ensures
        is_subsequence(
            spec_symbolize_list(
                data,
                aranges,
                units,
                object_filename,
                load_address,
                addresses,
                text_vmaddr,
                offset,
            ).map_values(|p: (u64, Seq<char>)| p.0),
            addresses,
        ),
    decreases addresses.len(),
{
    if addresses.len() == 0 {
    } else {
        lemma_order_preserved(
            data,
            aranges,
            units,
            object_filename,
            load_address,
            addresses.drop_first(),
            text_vmaddr,
            offset,
        );
        let rest = spec_symbolize_list(
            data,
            aranges,
            units,
            object_filename,
            load_address,
            addresses.drop_first(),
            text_vmaddr,
            offset,
        );
        let whole = spec_symbolize_list(
            data,
            aranges,
            units,
            object_filename,
            load_address,
            addresses,
            text_vmaddr,
            offset,
        );
        match spec_symbolize_address(
            data,
            aranges,
            units,
            object_filename,
            load_address,
            addresses[0],
            text_vmaddr,
            offset,
        ) {
            Ok(s) => {
                assert(whole =~= seq![(addresses[0], s)] + rest);
                assert(whole.map_values(|p: (u64, Seq<char>)| p.0) =~= seq![addresses[0]]
                    + rest.map_values(|p: (u64, Seq<char>)| p.0));
                assert(whole.map_values(|p: (u64, Seq<char>)| p.0).drop_first() =~= rest
                    .map_values(|p: (u64, Seq<char>)| p.0));
            },
            Err(_) => {
                assert(whole =~= rest);
            },
        }
    }
}

/// Law: two resolutions of identical inputs give identical outputs; the
/// resolved list is a function of the image data, the debug model, the
/// object filename, the load address, the address list and the mode.
pub proof fn lemma_deterministic(
    data: Seq<u8>,
    aranges: Seq<ArangeEntry>,
    units: Seq<CompilationUnit>,
    object_filename: Seq<char>,
    load_address: u64,
    addresses: Seq<u64>,
    text_vmaddr: u64,
    offset: bool,
    r1: Seq<(u64, Seq<char>)>,
    r2: Seq<(u64, Seq<char>)>,
)
    requires
        r1 == spec_symbolize_list(
            data,
            aranges,
            units,
            object_filename,
            load_address,
            addresses,
            text_vmaddr,
            offset,
        ),
        r2 == spec_symbolize_list(
            data,
            aranges,
            units,
            object_filename,
            load_address,
            addresses,
            text_vmaddr,
            offset,
        ),
    ensures
        r1 == r2,
{
}

} // verus!
