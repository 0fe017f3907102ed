//! The DWARF lookup pipeline over a plain model of the debug sections.
//!
//! The model holds, per compilation unit, the subprogram entries and the
//! rows that its line program produces. The three stages — arange lookup,
//! subprogram walk, line-row scan — are pure functions over that model.

use vstd::prelude::*;
use crate::errors::SymbolizeError;

verus! {

/// One `.debug_aranges` entry: the half-open range `[begin, begin + length)`
/// and the `.debug_info` offset of the compilation unit it belongs to.
pub struct ArangeEntry {
    pub begin: u64,
    pub length: u64,
    pub info_offset: u64,
}

/// How a subprogram entry encodes its upper program-counter bound.
pub enum HighPcAttr {
    /// No high-pc attribute: the entry never matches.
    Missing,
    /// An absolute upper bound.
    Addr(u64),
    /// An unsigned length; the upper bound is `low_pc + length`.
    Udata(u64),
}

/// What reading the name attribute of a subprogram entry gave.
pub enum NameAttr {
    /// The entry carries no name attribute.
    Missing,
    /// The name attribute points into a string table that could not be read.
    Unreadable,
    /// The resolved name.
    Present(String),
}

/// One subprogram entry of a compilation unit, in tree order.
pub struct SubprogramRec {
    pub low_pc: Option<u64>,
    pub high_pc: HighPcAttr,
    pub name: NameAttr,
}

/// One row that a line program produced.
pub struct LineRow {
    pub address: u64,
    /// The resolved file path, when this row changes the file.
    pub file: Option<String>,
    /// The source line, absent on rows without one.
    pub line: Option<u64>,
    pub end_sequence: bool,
}

/// One compilation unit: its `.debug_info` offset, its subprogram entries in
/// tree order, and the rows of its line program in emission order.
pub struct CompilationUnit {
    pub info_offset: u64,
    pub subprograms: Vec<SubprogramRec>,
    pub rows: Vec<LineRow>,
}

/// The debug information of one object: the arange entries in section order
/// (entries of one header kept together) and the compilation units.
pub struct DwarfModel {
    pub aranges: Vec<ArangeEntry>,
    pub units: Vec<CompilationUnit>,
}

/// Whether an arange entry covers an address.
pub open spec fn arange_covers(entry: ArangeEntry, addr: u64) -> bool {
    entry.begin <= addr && addr < entry.begin + entry.length
}

/// The unit offset of the first arange entry covering the address.
pub open spec fn spec_find_arange(entries: Seq<ArangeEntry>, addr: u64) -> Option<u64>
    decreases entries.len(),
{
    if entries.len() == 0 {
        None
    } else if arange_covers(entries[0], addr) {
        Some(entries[0].info_offset)
    } else {
        spec_find_arange(entries.drop_first(), addr)
    }
}

/// Stage one: pick the compilation unit whose arange covers the search
/// address; the first covering entry wins.
pub fn find_arange(entries: &Vec<ArangeEntry>, addr: u64) -> (r: Option<u64>)
    ensures
        r == spec_find_arange(entries@, addr),
{
    let n = entries.len();
    proof {
        assert(entries@.subrange(0, n as int) =~= entries@);
    }
    for i in 0..n
        invariant
            n == entries@.len(),
            spec_find_arange(entries@, addr) == spec_find_arange(
                entries@.subrange(i as int, n as int),
                addr,
            ),
    {
        let e = &entries[i];
        proof {
            assert(entries@.subrange(i as int, n as int)[0] == entries@[i as int]);
            assert(entries@.subrange(i as int, n as int).drop_first() =~= entries@.subrange(
                i as int + 1,
                n as int,
            ));
        }
        if addr >= e.begin && addr - e.begin < e.length {
            return Some(e.info_offset);
        }
    }
    proof {
        assert(entries@.subrange(n as int, n as int).len() == 0);
    }
    None
}

/// The first unit with the given `.debug_info` offset.
pub open spec fn spec_find_unit(units: Seq<CompilationUnit>, info_offset: u64) -> Option<int>
    decreases units.len(),
{
    if units.len() == 0 {
        None
    } else if units[0].info_offset == info_offset {
        Some(0int)
    } else {
        match spec_find_unit(units.drop_first(), info_offset) {
            Some(i) => Some(i + 1),
            None => None,
        }
    }
}

/// Find the compilation unit that the arange lookup selected.
pub fn find_unit(units: &Vec<CompilationUnit>, info_offset: u64) -> (r: Option<usize>)
    ensures
        match r {
            Some(i) => spec_find_unit(units@, info_offset) == Some(i as int) && i < units@.len()
                && units@[i as int].info_offset == info_offset,
            None => spec_find_unit(units@, info_offset) is None,
        },
{
    let n = units.len();
    for i in 0..n
        invariant
            n == units@.len(),
            forall|j: int| 0 <= j < i ==> units@[j].info_offset != info_offset,
    {
        if units[i].info_offset == info_offset {
            proof {
                lemma_find_unit_index(units@, info_offset, i as int);
            }
            return Some(i);
        }
    }
    proof {
        lemma_find_unit_none(units@, info_offset);
    }
    None
}

proof fn lemma_find_unit_index(units: Seq<CompilationUnit>, info_offset: u64, i: int)
    requires
        0 <= i < units.len(),
        units[i].info_offset == info_offset,
        forall|j: int| 0 <= j < i ==> units[j].info_offset != info_offset,
    ensures
        spec_find_unit(units, info_offset) == Some(i),
    decreases units.len(),
{
    if i > 0 {
        lemma_find_unit_index(units.drop_first(), info_offset, i - 1);
    }
}

proof fn lemma_find_unit_none(units: Seq<CompilationUnit>, info_offset: u64)
    requires
        forall|j: int| 0 <= j < units.len() ==> units[j].info_offset != info_offset,
    ensures
        spec_find_unit(units, info_offset) is None,
    decreases units.len(),
{
    if units.len() > 0 {
        lemma_find_unit_none(units.drop_first(), info_offset);
    }
}

/// The upper program-counter bound of a subprogram entry, over unbounded
/// integers so that a length never wraps.
pub open spec fn spec_high_bound(low_pc: u64, high_pc: HighPcAttr) -> Option<int> {
    match high_pc {
        HighPcAttr::Missing => None,
        HighPcAttr::Addr(a) => Some(a as int),
        HighPcAttr::Udata(len) => Some(low_pc + len),
    }
}

/// Whether a subprogram entry covers an address: both bounds are present and
/// `low_pc <= addr < high`.
pub open spec fn subprogram_covers(rec: SubprogramRec, addr: u64) -> bool {
    match rec.low_pc {
        Some(low) => match spec_high_bound(low, rec.high_pc) {
            Some(high) => low <= addr && (addr as int) < high,
            None => false,
        },
        None => false,
    }
}

/// The name of the first covering subprogram entry. A covering entry without
/// a name attribute is passed over; one whose name cannot be decoded stops
/// the walk with a string-decoding failure.
pub open spec fn spec_find_subprogram(recs: Seq<SubprogramRec>, addr: u64) -> Result<
    Seq<char>,
    SymbolizeError,
>
    decreases recs.len(),
{
    if recs.len() == 0 {
        Err(SymbolizeError::SubprogramNotFound)
    } else if subprogram_covers(recs[0], addr) {
        match recs[0].name {
            NameAttr::Present(name) => Ok(name@),
            NameAttr::Unreadable => Err(SymbolizeError::StringDecoding),
            NameAttr::Missing => spec_find_subprogram(recs.drop_first(), addr),
        }
    } else {
        spec_find_subprogram(recs.drop_first(), addr)
    }
}

fn subprogram_covers_exec(rec: &SubprogramRec, addr: u64) -> (r: bool)
    ensures
        r == subprogram_covers(*rec, addr),
{
    match rec.low_pc {
        Some(low) => match rec.high_pc {
            HighPcAttr::Missing => false,
            HighPcAttr::Addr(a) => low <= addr && addr < a,
            HighPcAttr::Udata(len) => low <= addr && addr - low < len,
        },
        None => false,
    }
}

/// Stage two: walk the unit's subprogram entries in tree order and return
/// the name of the first one covering the search address.
pub fn find_subprogram(recs: &Vec<SubprogramRec>, addr: u64) -> (r: Result<String, SymbolizeError>)
    ensures
        match r {
            Ok(name) => spec_find_subprogram(recs@, addr) == Ok::<Seq<char>, SymbolizeError>(name@),
            Err(e) => spec_find_subprogram(recs@, addr) == Err::<Seq<char>, SymbolizeError>(e),
        },
{
    let n = recs.len();
    proof {
        assert(recs@.subrange(0, n as int) =~= recs@);
    }
    for i in 0..n
        invariant
            n == recs@.len(),
            spec_find_subprogram(recs@, addr) == spec_find_subprogram(
                recs@.subrange(i as int, n as int),
                addr,
            ),
    {
        proof {
            assert(recs@.subrange(i as int, n as int)[0] == recs@[i as int]);
            assert(recs@.subrange(i as int, n as int).drop_first() =~= recs@.subrange(
                i as int + 1,
                n as int,
            ));
        }
        if subprogram_covers_exec(&recs[i], addr) {
            match &recs[i].name {
                NameAttr::Present(name) => {
                    return Ok(name.clone());
                },
                NameAttr::Unreadable => {
                    return Err(SymbolizeError::StringDecoding);
                },
                NameAttr::Missing => {},
            }
        }
    }
    proof {
        assert(recs@.subrange(n as int, n as int).len() == 0);
    }
    Err(SymbolizeError::SubprogramNotFound)
}

/// The line a row carries, with zero standing for a row without one.
pub open spec fn row_line(row: LineRow) -> u64 {
    match row.line {
        Some(l) => l,
        None => 0,
    }
}

/// The view of an optional owned string.
pub open spec fn view_opt_str(o: Option<String>) -> Option<Seq<char>> {
    match o {
        Some(s) => Some(s@),
        None => None,
    }
}

/// The straddle scan over the remaining rows, carried state first.
///
/// `last_file` and `last_line` are the source position of the most recent
/// ordinary row; `found_file` and `found_line` are the position recorded at
/// the latest straddle. A row whose address lies strictly above the search
/// address straddles it: the prior position is recorded, and the scan stops
/// there when the recorded line is positive, preferring a later non-zero
/// answer otherwise. Rows that end a sequence take part in the straddle
/// check but never update the carried position.
pub open spec fn spec_scan_rows(
    rows: Seq<LineRow>,
    addr: u64,
    last_file: Option<Seq<char>>,
    last_line: Option<u64>,
    found_file: Option<Seq<char>>,
    found_line: Option<u64>,
) -> (Option<Seq<char>>, Option<u64>)
    decreases rows.len(),
{
    if rows.len() == 0 {
        (found_file, found_line)
    } else {
        let row = rows[0];
        let straddle = addr < row.address;
        let stop = straddle && match last_line {
            Some(l) => l > 0,
            None => false,
        };
        if row.end_sequence {
            if stop {
                (last_file, last_line)
            } else if straddle {
                spec_scan_rows(rows.drop_first(), addr, last_file, last_line, last_file, last_line)
            } else {
                spec_scan_rows(rows.drop_first(), addr, last_file, last_line, found_file, found_line)
            }
        } else {
            let file = match row.file {
                Some(f) => Some(f@),
                None => last_file,
            };
            if stop {
                (file, last_line)
            } else if straddle {
                spec_scan_rows(rows.drop_first(), addr, file, Some(row_line(row)), file, last_line)
            } else {
                spec_scan_rows(
                    rows.drop_first(),
                    addr,
                    file,
                    Some(row_line(row)),
                    found_file,
                    found_line,
                )
            }
        }
    }
}

/// Stage three as a whole: the file and line for the search address, present
/// only when the scan recorded both.
pub open spec fn spec_line_lookup(rows: Seq<LineRow>, addr: u64) -> Option<(Seq<char>, u64)> {
    let found = spec_scan_rows(rows, addr, None, None, None, None);
    match found.0 {
        Some(file) => match found.1 {
            Some(line) => Some((file, line)),
            None => None,
        },
        None => None,
    }
}

/// Stage three: replay the unit's line rows and return the source file and
/// line straddled by the search address.
pub fn scan_line_rows(rows: &Vec<LineRow>, addr: u64) -> (r: Option<(String, u64)>)
    ensures
        match r {
            Some(p) => spec_line_lookup(rows@, addr) == Some((p.0@, p.1)),
            None => spec_line_lookup(rows@, addr) is None,
        },
{
    let mut last_file: Option<String> = None;
    let mut last_line: Option<u64> = None;
    let mut found_file: Option<String> = None;
    let mut found_line: Option<u64> = None;
    let n = rows.len();
    proof {
        assert(rows@.subrange(0, n as int) =~= rows@);
    }
    for i in 0..n
        invariant
            n == rows@.len(),
            spec_scan_rows(rows@, addr, None, None, None, None) == spec_scan_rows(
                rows@.subrange(i as int, n as int),
                addr,
                view_opt_str(last_file),
                last_line,
                view_opt_str(found_file),
                found_line,
            ),
    {
        proof {
            assert(rows@.subrange(i as int, n as int)[0] == rows@[i as int]);
            assert(rows@.subrange(i as int, n as int).drop_first() =~= rows@.subrange(
                i as int + 1,
                n as int,
            ));
        }
        let row = &rows[i];
        let straddle = addr < row.address;
        let stop = straddle && match last_line {
            Some(l) => l > 0,
            None => false,
        };
        if row.end_sequence {
            if stop {
                return match (last_file, last_line) {
                    (Some(file), Some(line)) => Some((file, line)),
                    _ => None,
                };
            } else if straddle {
                found_file = match &last_file {
                    Some(f) => Some(f.clone()),
                    None => None,
                };
                found_line = last_line;
            }
        } else {
            match &row.file {
                Some(f) => {
                    last_file = Some(f.clone());
                },
                None => {},
            }
            if stop {
                return match (last_file, last_line) {
                    (Some(file), Some(line)) => Some((file, line)),
                    _ => None,
                };
            } else if straddle {
                found_file = match &last_file {
                    Some(f) => Some(f.clone()),
                    None => None,
                };
                found_line = last_line;
            }
            last_line = Some(match row.line {
                Some(l) => l,
                None => 0,
            });
        }
    }
    match (found_file, found_line) {
        (Some(file), Some(line)) => Some((file, line)),
        _ => None,
    }
}

} // verus!
