//! The view of a parsed object image: segments, sections, symbol map.
//!
//! The image itself is parsed by the `object` crate; the trusted items here
//! hand its answers over as plain values, and the segment scan for the
//! `__TEXT` base is verified on those.

use vstd::prelude::*;
use object::{Object, ObjectSegment};

verus! {

/// One segment of the image: its name, when it has a readable one, and its
/// virtual address.
pub struct Segment {
    pub name: Option<String>,
    pub vmaddr: u64,
}

/// The plain view of a segment.
pub open spec fn seg_view(s: Segment) -> (Option<Seq<char>>, u64) {
    match s.name {
        Some(n) => (Some(n@), s.vmaddr),
        None => (None, s.vmaddr),
    }
}

/// Whether the image data parses and holds a section of the given name.
pub uninterp spec fn has_section_of(data: Seq<u8>, name: Seq<char>) -> bool;

/// Relies on object::File::parse and object::read::Object::section_by_name:
/// whether the image parses as an object file and holds a section of the
/// given name.
#[verifier::external_body]
fn object_has_section(data: &[u8], name: &str) -> (r: bool)
    ensures
        r == has_section_of(data@, name@),
{
    match object::File::parse(data) {
        Ok(file) => file.section_by_name(name).is_some(),
        Err(_) => false,
    }
}

/// Whether the image carries DWARF debug information, signalled by the
/// presence of a `__debug_line` section.
pub fn is_object_dwarf(data: &[u8]) -> (r: bool)
    ensures
        r == has_section_of(data@, "__debug_line"@),
{
    object_has_section(data, "__debug_line")
}

/// The name and virtual address of every segment of the image, in iteration
/// order.
pub uninterp spec fn segments_of(data: Seq<u8>) -> Seq<(Option<Seq<char>>, u64)>;

/// Relies on object::File::parse, Object::segments, ObjectSegment::name and
/// ObjectSegment::address: every segment's name and virtual address, in
/// iteration order. A segment without a readable name carries none; an image
/// that does not parse has no segments.
#[verifier::external_body]
pub fn object_segments(data: &[u8]) -> (r: Vec<Segment>)
    ensures
        r@.map_values(|s: Segment| seg_view(s)) == segments_of(data@),
{
    match object::File::parse(data) {
        Ok(file) => file.segments().map(
            |s| Segment { name: s.name().ok().flatten().map(|n| n.to_string()), vmaddr: s.address() },
        ).collect(),
        Err(_) => Vec::new(),
    }
}

/// The symbol at or before an address in the image's symbol map.
pub uninterp spec fn sym_hit_of(data: Seq<u8>, addr: u64) -> Option<(Seq<char>, u64)>;

/// The plain view of a symbol-map hit.
pub open spec fn view_opt_hit(r: Option<(String, u64)>) -> Option<(Seq<char>, u64)> {
    match r {
        Some(hit) => Some((hit.0@, hit.1)),
        None => None,
    }
}

/// Relies on object::File::parse, Object::symbol_map and SymbolMap::before:
/// the map holds the image's defined symbols sorted by address, and `before`
/// returns the one with the greatest address at or below the query, so the
/// returned address never exceeds the queried one. An image that does not
/// parse has no symbols.
#[verifier::external_body]
pub(crate) fn lookup_symbol(data: &[u8], addr: u64) -> (r: Option<(String, u64)>)
    ensures
        view_opt_hit(r) == sym_hit_of(data@, addr),
        (match r {
            Some(hit) => hit.1 <= addr,
            None => true,
        }),
{
    let file = match object::File::parse(data) {
        Ok(f) => f,
        Err(_) => return None,
    };
    let map = file.symbol_map();
    map.before(addr).map(|sym| (sym.name().to_string(), sym.address()))
}

/// Whether a segment view is the `__TEXT` segment.
pub open spec fn is_text_seg(s: (Option<Seq<char>>, u64)) -> bool {
    match s.0 {
        Some(n) => n == "__TEXT"@,
        None => false,
    }
}

/// The virtual address of the first `__TEXT` segment, or zero when no
/// segment of that name exists.
pub open spec fn spec_text_vmaddr(segs: Seq<(Option<Seq<char>>, u64)>) -> u64
    decreases segs.len(),
{
    if segs.len() == 0 {
        0
    } else if is_text_seg(segs[0]) {
        segs[0].1
    } else {
        spec_text_vmaddr(segs.drop_first())
    }
}

/// The `__TEXT` base of the image data.
pub open spec fn spec_text_vmaddr_of(data: Seq<u8>) -> u64 {
    spec_text_vmaddr(segments_of(data))
}

/// Scan the segments in order for the first one named `__TEXT` and return
/// its virtual address; zero when none matches.
pub fn find_text_vmaddr(segments: &Vec<Segment>) -> (r: u64)
    ensures
        r == spec_text_vmaddr(segments@.map_values(|s: Segment| seg_view(s))),
{
    let ghost mapped = segments@.map_values(|s: Segment| seg_view(s));
    let n = segments.len();
    proof {
        assert(mapped.subrange(0, n as int) =~= mapped);
    }
    let text_name: String = "__TEXT".to_owned();
    for i in 0..n
        invariant
            n == segments@.len(),
            text_name@ == "__TEXT"@,
            mapped == segments@.map_values(|s: Segment| seg_view(s)),
            spec_text_vmaddr(mapped) == spec_text_vmaddr(mapped.subrange(i as int, n as int)),
    {
        proof {
            assert(mapped.subrange(i as int, n as int)[0] == mapped[i as int]);
            assert(mapped.subrange(i as int, n as int).drop_first() =~= mapped.subrange(
                i as int + 1,
                n as int,
            ));
            assert(mapped[i as int] == seg_view(segments@[i as int]));
        }
        match &segments[i].name {
            Some(name) => {
                if *name == text_name {
                    proof {
                        assert(is_text_seg(mapped[i as int]));
                    }
                    return segments[i].vmaddr;
                }
            },
            None => {},
        }
    }
    proof {
        assert(mapped.subrange(n as int, n as int).len() == 0);
    }
    0
}

/// Compute the `__TEXT` base straight from the image data.
pub fn text_vmaddr_of_object(data: &[u8]) -> (r: u64)
    ensures
        r == spec_text_vmaddr_of(data@),
{
    let segments = object_segments(data);
    find_text_vmaddr(&segments)
}

} // verus!
