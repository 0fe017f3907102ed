use atosl::dwarf_info::{
    find_arange, find_subprogram, find_unit, scan_line_rows, ArangeEntry, CompilationUnit,
    DwarfModel, HighPcAttr, LineRow, NameAttr, SubprogramRec,
};
use atosl::errors::SymbolizeError;
use atosl::symbolize::dwarf_symbolize_address;

fn row(address: u64, file: Option<&str>, line: Option<u64>, end_sequence: bool) -> LineRow {
    LineRow { address, file: file.map(|f| f.to_string()), line, end_sequence }
}

// One function `main` at [0x1000, 0x1040), line-table row at 0x1020 for
// main.m:42, covered by one arange.
fn single_main_model() -> DwarfModel {
    DwarfModel {
        aranges: vec![ArangeEntry { begin: 0x1000, length: 0x40, info_offset: 0 }],
        units: vec![CompilationUnit {
            info_offset: 0,
            subprograms: vec![SubprogramRec {
                low_pc: Some(0x1000),
                high_pc: HighPcAttr::Addr(0x1040),
                name: NameAttr::Present("main".to_string()),
            }],
            rows: vec![
                row(0x1000, Some("main.m"), Some(40), false),
                row(0x1020, None, Some(42), false),
                row(0x1040, None, None, true),
            ],
        }],
    }
}

#[test]
fn dwarf_hit_offset_mode() {
    // Runtime address de-slid by the load address, re-slid by __TEXT.
    let model = single_main_model();
    let r = dwarf_symbolize_address(&model, "TestBin", 0x100000000, 0x100001020, 0x1000, true);
    // search address: 0x100001020 - 0x100000000 + 0x1000 = 0x2020 misses;
    // with text_vmaddr 0 the search address is 0x1020 and hits.
    assert_eq!(r, Err(SymbolizeError::ArangeMiss));
    let r = dwarf_symbolize_address(&model, "TestBin", 0x100000000, 0x100001020, 0, true);
    assert_eq!(r, Ok("main (in TestBin) (main.m:42)".to_string()));
}

#[test]
fn dwarf_hit_non_offset_mode_is_identical() {
    let model = single_main_model();
    let offset_mode =
        dwarf_symbolize_address(&model, "TestBin", 0x100000000, 0x100001020, 0, true);
    let plain = dwarf_symbolize_address(&model, "TestBin", 0, 0x1020, 0, false);
    assert_eq!(offset_mode, plain);
    assert_eq!(plain, Ok("main (in TestBin) (main.m:42)".to_string()));
}

#[test]
fn address_below_load_address_fails() {
    let model = single_main_model();
    let r = dwarf_symbolize_address(&model, "TestBin", 0x100000010, 0x100000000, 0, true);
    assert_eq!(r, Err(SymbolizeError::AddressUnderflow));
}

#[test]
fn high_pc_as_length() {
    let model = DwarfModel {
        aranges: vec![ArangeEntry { begin: 0x1000, length: 0x100, info_offset: 0 }],
        units: vec![CompilationUnit {
            info_offset: 0,
            subprograms: vec![SubprogramRec {
                low_pc: Some(0x1000),
                high_pc: HighPcAttr::Udata(0x40),
                name: NameAttr::Present("main".to_string()),
            }],
            rows: vec![
                row(0x1000, Some("main.m"), Some(42), false),
                row(0x1040, None, None, true),
            ],
        }],
    };
    let r = dwarf_symbolize_address(&model, "TestBin", 0, 0x103f, 0, false);
    assert_eq!(r, Ok("main (in TestBin) (main.m:42)".to_string()));
    let r = dwarf_symbolize_address(&model, "TestBin", 0, 0x1040, 0, false);
    assert_eq!(r, Err(SymbolizeError::SubprogramNotFound));
}

#[test]
fn arange_first_covering_entry_wins() {
    let entries = vec![
        ArangeEntry { begin: 0x2000, length: 0x10, info_offset: 7 },
        ArangeEntry { begin: 0x1000, length: 0x100, info_offset: 1 },
        ArangeEntry { begin: 0x1000, length: 0x100, info_offset: 2 },
    ];
    assert_eq!(find_arange(&entries, 0x1010), Some(1));
    assert_eq!(find_arange(&entries, 0x2008), Some(7));
    assert_eq!(find_arange(&entries, 0x0fff), None);
    assert_eq!(find_arange(&entries, 0x1100), None);
    assert_eq!(find_arange(&entries, 0x2000), Some(7));
}

#[test]
fn unit_lookup_by_offset() {
    let model = single_main_model();
    assert_eq!(find_unit(&model.units, 0), Some(0));
    assert_eq!(find_unit(&model.units, 5), None);
}

#[test]
fn unit_miss_when_arange_points_nowhere() {
    let mut model = single_main_model();
    model.aranges[0].info_offset = 99;
    let r = dwarf_symbolize_address(&model, "TestBin", 0, 0x1020, 0, false);
    assert_eq!(r, Err(SymbolizeError::UnitMiss));
}

#[test]
fn subprogram_without_name_is_passed_over() {
    let recs = vec![
        SubprogramRec {
            low_pc: Some(0x1000),
            high_pc: HighPcAttr::Addr(0x1040),
            name: NameAttr::Missing,
        },
        SubprogramRec {
            low_pc: Some(0x1000),
            high_pc: HighPcAttr::Addr(0x1040),
            name: NameAttr::Present("outer".to_string()),
        },
    ];
    assert_eq!(find_subprogram(&recs, 0x1010), Ok("outer".to_string()));
}

#[test]
fn unreadable_name_is_a_string_decoding_error() {
    let recs = vec![SubprogramRec {
        low_pc: Some(0x1000),
        high_pc: HighPcAttr::Addr(0x1040),
        name: NameAttr::Unreadable,
    }];
    assert_eq!(find_subprogram(&recs, 0x1010), Err(SymbolizeError::StringDecoding));
}

#[test]
fn subprogram_without_low_pc_never_matches() {
    let recs = vec![SubprogramRec {
        low_pc: None,
        high_pc: HighPcAttr::Addr(0x1040),
        name: NameAttr::Present("ghostly".to_string()),
    }];
    assert_eq!(find_subprogram(&recs, 0x1010), Err(SymbolizeError::SubprogramNotFound));
}

#[test]
fn line_scan_prefers_later_non_zero_line() {
    // A zero line marks a row without a source line; the scan records it but
    // keeps going, preferring a later non-zero answer.
    let rows = vec![
        row(0x1000, Some("main.m"), Some(0), false),
        row(0x1010, None, Some(7), false),
        row(0x1050, None, None, true),
    ];
    assert_eq!(scan_line_rows(&rows, 0x1008), Some(("main.m".to_string(), 7)));
}

#[test]
fn line_scan_straddle_takes_prior_line() {
    let rows = vec![
        row(0x1000, Some("main.m"), Some(40), false),
        row(0x1020, None, Some(42), false),
        row(0x1040, None, None, true),
    ];
    // Between rows: position of the greatest row address at or below.
    assert_eq!(scan_line_rows(&rows, 0x1000), Some(("main.m".to_string(), 40)));
    assert_eq!(scan_line_rows(&rows, 0x1008), Some(("main.m".to_string(), 40)));
    assert_eq!(scan_line_rows(&rows, 0x1020), Some(("main.m".to_string(), 42)));
    assert_eq!(scan_line_rows(&rows, 0x1021), Some(("main.m".to_string(), 42)));
    // Below the first row the first straddle records no line yet; the next
    // straddle then stops with the first row's line.
    assert_eq!(scan_line_rows(&rows, 0x0fff), Some(("main.m".to_string(), 40)));
    assert_eq!(scan_line_rows(&rows, 0x2000), None);
}

#[test]
fn line_scan_needs_a_file() {
    let rows = vec![
        row(0x1000, None, Some(40), false),
        row(0x1040, None, None, true),
    ];
    assert_eq!(scan_line_rows(&rows, 0x1008), None);
}

#[test]
fn end_sequence_rows_do_not_carry_a_position() {
    // A row that ends a sequence takes part in the straddle check but its
    // own file and line never become the carried position.
    let rows = vec![
        row(0x1000, Some("real.m"), Some(5), false),
        row(0x1040, Some("bogus.m"), Some(99), true),
        row(0x2000, None, Some(11), false),
        row(0x2040, None, None, true),
    ];
    assert_eq!(scan_line_rows(&rows, 0x1010), Some(("real.m".to_string(), 5)));
    assert_eq!(scan_line_rows(&rows, 0x2010), Some(("real.m".to_string(), 11)));
}

#[test]
fn error_messages_and_fallback_classes() {
    let fallback_cases = [
        (SymbolizeError::AddressUnderflow, "sub load_address overflow"),
        (SymbolizeError::AddressOverflow, "add text_vmaddr overflow"),
        (SymbolizeError::ArangeMiss, "can not find arange"),
        (SymbolizeError::UnitMiss, "can not find compilation unit"),
        (SymbolizeError::SubprogramNotFound, "can not find subprogram"),
        (SymbolizeError::LineNotFound, "can not find line"),
        (SymbolizeError::SymbolNotFound, "failed search symbol"),
    ];
    for (err, text) in fallback_cases {
        assert_eq!(err.message(), text);
        assert!(err.allows_fallback());
    }
    assert_eq!(SymbolizeError::StringDecoding.message(), "can not decode string");
    assert!(!SymbolizeError::StringDecoding.allows_fallback());
}

#[test]
fn line_miss_is_a_dwarf_miss() {
    let mut model = single_main_model();
    model.units[0].rows.clear();
    let r = dwarf_symbolize_address(&model, "TestBin", 0, 0x1020, 0, false);
    assert_eq!(r, Err(SymbolizeError::LineNotFound));
}
