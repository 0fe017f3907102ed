use atosl::dwarf_info::{ArangeEntry, CompilationUnit, DwarfModel, HighPcAttr, LineRow,
    NameAttr, SubprogramRec};
use atosl::demangle::demangle_symbol;
use atosl::object_info::{
    find_text_vmaddr, is_object_dwarf, object_segments, text_vmaddr_of_object, Segment,
};
use atosl::symbolize::{symbolize_addresses, symbolize_groups, GroupAddress};
use object::read::{Object as ReadObject, ObjectSegment as ReadObjectSegment, ObjectSymbol};
use object::write::{Mangling, Object, Symbol, SymbolSection};
use object::{
    Architecture, BinaryFormat, Endianness, SectionKind, SymbolFlags, SymbolKind, SymbolScope,
};

// A small Mach-O image with one text section, the given symbols at offsets
// into it, and optionally an (empty) __debug_line section.
fn build_macho(symbols: &[(&str, u64)], with_debug_line: bool) -> Vec<u8> {
    let mut obj = Object::new(BinaryFormat::MachO, Architecture::X86_64, Endianness::Little);
    // keep the symbol names exactly as given
    obj.set_mangling(Mangling::None);
    let text = obj.add_section(b"__TEXT".to_vec(), b"__text".to_vec(), SectionKind::Text);
    obj.set_section_data(text, vec![0u8; 0x100], 16);
    for (name, value) in symbols {
        obj.add_symbol(Symbol {
            name: name.as_bytes().to_vec(),
            value: *value,
            size: 4,
            kind: SymbolKind::Text,
            scope: SymbolScope::Linkage,
            weak: false,
            section: SymbolSection::Section(text),
            flags: SymbolFlags::None,
        });
    }
    if with_debug_line {
        let dl = obj.add_section(b"__DWARF".to_vec(), b"__debug_line".to_vec(), SectionKind::Debug);
        obj.set_section_data(dl, vec![0u8; 4], 1);
    }
    obj.write().expect("writing the fixture image")
}

// The parsed address of a symbol in the fixture, so expectations do not
// depend on where the writer placed the section.
fn symbol_address(data: &[u8], name: &str) -> u64 {
    let file = object::File::parse(data).expect("fixture must parse");
    file.symbols()
        .find(|s| s.name() == Ok(name))
        .expect("fixture symbol")
        .address()
}

#[test]
fn debug_line_section_is_detected() {
    let plain = build_macho(&[("_foo", 0x10)], false);
    let with_dwarf = build_macho(&[("_foo", 0x10)], true);
    assert!(!is_object_dwarf(&plain));
    assert!(is_object_dwarf(&with_dwarf));
    assert!(!is_object_dwarf(b"not an object file"));
}

#[test]
fn text_vmaddr_scan_takes_first_match() {
    let segments = vec![
        Segment { name: None, vmaddr: 0x500 },
        Segment { name: Some("__PAGEZERO".to_string()), vmaddr: 0 },
        Segment { name: Some("__TEXT".to_string()), vmaddr: 0x1000 },
        Segment { name: Some("__TEXT".to_string()), vmaddr: 0x9000 },
    ];
    assert_eq!(find_text_vmaddr(&segments), 0x1000);
    let no_text = vec![Segment { name: Some("__DATA".to_string()), vmaddr: 0x4000 }];
    assert_eq!(find_text_vmaddr(&no_text), 0);
    assert_eq!(find_text_vmaddr(&Vec::new()), 0);
}

#[test]
fn text_vmaddr_of_unparsable_data_is_zero() {
    assert_eq!(text_vmaddr_of_object(b"not an object file"), 0);
    assert!(object_segments(b"not an object file").is_empty());
}

#[test]
fn segments_match_a_direct_read() {
    let data = build_macho(&[("_foo", 0x10)], false);
    let file = object::File::parse(&data[..]).expect("fixture must parse");
    let direct: Vec<(Option<String>, u64)> = file
        .segments()
        .map(|s| (s.name().ok().flatten().map(|n| n.to_string()), s.address()))
        .collect();
    let wrapped: Vec<(Option<String>, u64)> = object_segments(&data)
        .into_iter()
        .map(|s: Segment| (s.name, s.vmaddr))
        .collect();
    assert_eq!(wrapped, direct);
}

fn empty_model() -> DwarfModel {
    DwarfModel { aranges: Vec::new(), units: Vec::new() }
}

#[test]
fn symbol_table_hit_with_offset() {
    // A stripped image: the address resolves against the symbol map, with
    // the distance into the symbol appended.
    let data = build_macho(&[("_foo", 0x10)], false);
    let foo = symbol_address(&data, "_foo");
    let model = empty_model();
    let load: u64 = 0x100000000;
    let (results, diags) =
        symbolize_addresses(&data, &model, "TestBin", load, &vec![load + foo + 16], true);
    assert_eq!(diags, Vec::<String>::new());
    assert_eq!(results.len(), 1);
    assert_eq!(results[0].address, load + foo + 16);
    let expected = format!("{} (in TestBin) + 16", demangle_symbol("_foo"));
    assert_eq!(results[0].result, expected);
}

#[test]
fn mangled_symbol_is_demangled_in_output() {
    let data = build_macho(&[("__ZN3Foo3barEv", 0x30)], false);
    let addr = symbol_address(&data, "__ZN3Foo3barEv");
    let model = empty_model();
    let (results, _) = symbolize_addresses(&data, &model, "TestBin", 0, &vec![addr], false);
    assert_eq!(results.len(), 1);
    assert!(
        results[0].result.starts_with("Foo::bar()"),
        "got {}",
        results[0].result
    );
    assert!(results[0].result.ends_with("(in TestBin) + 0"));
}

#[test]
fn dwarf_miss_falls_back_to_symbol_table() {
    // The image carries a __debug_line section, so the DWARF path runs
    // first; an address its aranges miss degrades to the symbol map.
    let data = build_macho(&[("_covered", 0x10), ("_uncovered", 0x80)], true);
    let covered = symbol_address(&data, "_covered");
    let model = DwarfModel {
        aranges: vec![ArangeEntry { begin: covered, length: 4, info_offset: 0 }],
        units: vec![CompilationUnit {
            info_offset: 0,
            subprograms: vec![SubprogramRec {
                low_pc: Some(covered),
                high_pc: HighPcAttr::Udata(4),
                name: NameAttr::Present("covered".to_string()),
            }],
            rows: vec![
                LineRow {
                    address: covered,
                    file: Some("cov.m".to_string()),
                    line: Some(3),
                    end_sequence: false,
                },
                LineRow { address: covered + 4, file: None, line: None, end_sequence: true },
            ],
        }],
    };
    let uncovered = symbol_address(&data, "_uncovered");
    let (results, diags) = symbolize_addresses(
        &data,
        &model,
        "TestBin",
        0,
        &vec![covered + 1, uncovered + 2],
        false,
    );
    assert_eq!(diags, Vec::<String>::new());
    assert_eq!(results.len(), 2);
    // First address: full DWARF hit.
    assert_eq!(results[0].result, "covered (in TestBin) (cov.m:3)");
    // Second address: arange miss, symbol-table format.
    let expected = format!("{} (in TestBin) + 2", demangle_symbol("_uncovered"));
    assert_eq!(results[1].result, expected);
}

#[test]
fn unreadable_name_is_terminal_despite_a_symbol_hit() {
    // A string-decoding failure identifies the unit and must not degrade to
    // the symbol table, although the symbol map would answer.
    let data = build_macho(&[("_covered", 0x10)], true);
    let covered = symbol_address(&data, "_covered");
    let model = DwarfModel {
        aranges: vec![ArangeEntry { begin: covered, length: 4, info_offset: 0 }],
        units: vec![CompilationUnit {
            info_offset: 0,
            subprograms: vec![SubprogramRec {
                low_pc: Some(covered),
                high_pc: HighPcAttr::Udata(4),
                name: NameAttr::Unreadable,
            }],
            rows: Vec::new(),
        }],
    };
    let (results, diags) =
        symbolize_addresses(&data, &model, "TestBin", 0, &vec![covered + 1], false);
    assert_eq!(results.len(), 0);
    assert_eq!(diags, vec!["N/A - can not decode string".to_string()]);
}

#[test]
fn failures_are_dropped_in_order_with_diagnostics() {
    let data = build_macho(&[("_foo", 0x10)], false);
    let foo = symbol_address(&data, "_foo");
    let model = empty_model();
    // Second address underflows the load address; the others resolve.
    let load: u64 = 0x1000;
    let addresses = vec![load + foo + 4, 0x10, load + foo + 8];
    let (results, diags) = symbolize_addresses(&data, &model, "TestBin", load, &addresses, true);
    assert_eq!(results.len(), 2);
    assert_eq!(results[0].address, load + foo + 4);
    assert_eq!(results[1].address, load + foo + 8);
    assert_eq!(diags, vec!["N/A - sub load_address overflow".to_string()]);
}

#[test]
fn groups_resolve_against_their_own_load_addresses() {
    let data = build_macho(&[("_foo", 0x10)], false);
    let foo = symbol_address(&data, "_foo");
    let model = empty_model();
    let groups = vec![
        GroupAddress { load_address: 0x2000, addresses: vec![0x2000 + foo + 1] },
        GroupAddress { load_address: 0x8000, addresses: vec![0x8000 + foo + 7] },
    ];
    let (results, diags) = symbolize_groups(&data, &model, "TestBin", &groups, true);
    assert_eq!(diags, Vec::<String>::new());
    let expected_base = demangle_symbol("_foo");
    assert_eq!(results.len(), 2);
    assert_eq!(results[0].result, format!("{} (in TestBin) + 1", expected_base));
    assert_eq!(results[1].result, format!("{} (in TestBin) + 7", expected_base));
}

#[test]
fn address_below_first_symbol_is_a_miss() {
    let data = build_macho(&[("_foo", 0x10)], false);
    let foo = symbol_address(&data, "_foo");
    assert!(foo > 0, "fixture symbol must not sit at zero for this test");
    let model = empty_model();
    let (results, diags) = symbolize_addresses(&data, &model, "TestBin", 0, &vec![0], false);
    assert_eq!(results.len(), 0);
    assert_eq!(diags, vec!["N/A - failed search symbol".to_string()]);
}
