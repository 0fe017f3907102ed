//! The two symbolication result formats, built as verified strings.

use vstd::prelude::*;
use vstd::arithmetic::div_mod::lemma_fundamental_div_mod;

verus! {

/// The character for one decimal digit.
pub open spec fn spec_digit_char(d: int) -> char {
    if d == 0 {
        '0'
    } else if d == 1 {
        '1'
    } else if d == 2 {
        '2'
    } else if d == 3 {
        '3'
    } else if d == 4 {
        '4'
    } else if d == 5 {
        '5'
    } else if d == 6 {
        '6'
    } else if d == 7 {
        '7'
    } else if d == 8 {
        '8'
    } else {
        '9'
    }
}

/// The decimal digit string of a nonnegative integer, most significant first.
pub open spec fn spec_dec(n: int) -> Seq<char>
    recommends
        n >= 0,
    decreases n,
{
    if n < 10 {
        seq![spec_digit_char(n)]
    } else {
        spec_dec(n / 10).push(spec_digit_char(n % 10))
    }
}

fn digit_str(d: u64) -> (r: &'static str)
    requires
        d < 10,
    ensures
        r@ == seq![spec_digit_char(d as int)],
        r@.len() == 1,
{
    let r: &'static str = if d == 0 {
        proof {
            reveal_strlit("0");
        }
        "0"
    } else if d == 1 {
        proof {
            reveal_strlit("1");
        }
        "1"
    } else if d == 2 {
        proof {
            reveal_strlit("2");
        }
        "2"
    } else if d == 3 {
        proof {
            reveal_strlit("3");
        }
        "3"
    } else if d == 4 {
        proof {
            reveal_strlit("4");
        }
        "4"
    } else if d == 5 {
        proof {
            reveal_strlit("5");
        }
        "5"
    } else if d == 6 {
        proof {
            reveal_strlit("6");
        }
        "6"
    } else if d == 7 {
        proof {
            reveal_strlit("7");
        }
        "7"
    } else if d == 8 {
        proof {
            reveal_strlit("8");
        }
        "8"
    } else {
        proof {
            reveal_strlit("9");
        }
        "9"
    };
    proof {
        assert(r@ =~= seq![spec_digit_char(d as int)]);
    }
    r
}

/// Render an unsigned value in decimal, without sign or padding.
pub fn u64_to_dec(n: u64) -> (r: String)
    ensures
        r@ == spec_dec(n as int),
    decreases n,
{
    if n < 10 {
        let s = digit_str(n);
        let r = s.to_owned();
        r
    } else {
        proof {
            assert(n / 10 < n) by (nonlinear_arith)
                requires
                    n >= 10,
            ;
        }
        let mut r = u64_to_dec(n / 10);
        r.append(digit_str(n % 10));
        proof {
            assert(r@ =~= spec_dec(n as int));
        }
        r
    }
}

/// The text of a symbol-table hit: name, object file, offset into the symbol.
pub open spec fn spec_symbol_result(name: Seq<char>, object_filename: Seq<char>, offset: u64) -> Seq<
    char,
> {
    name + " (in "@ + object_filename + ") + "@ + spec_dec(offset as int)
}

/// The text of a DWARF hit: name, object file, source file and line.
pub open spec fn spec_dwarf_result(
    name: Seq<char>,
    object_filename: Seq<char>,
    file: Seq<char>,
    line: u64,
) -> Seq<char> {
    name + " (in "@ + object_filename + ") ("@ + file + ":"@ + spec_dec(line as int) + ")"@
}

/// Format a symbol-table hit as `name (in object) + offset`.
pub fn format_symbol_result(name: &str, object_filename: &str, offset: u64) -> (r: String)
    ensures
        r@ == spec_symbol_result(name@, object_filename@, offset),
{
    let mut r = name.to_owned();
    r.append(" (in ");
    r.append(object_filename);
    r.append(") + ");
    let dec = u64_to_dec(offset);
    r.append(dec.as_str());
    proof {
        assert(r@ =~= spec_symbol_result(name@, object_filename@, offset));
    }
    r
}

/// Format a DWARF hit as `name (in object) (file:line)`.
pub fn format_dwarf_result(name: &str, object_filename: &str, file: &str, line: u64) -> (r: String)
    ensures
        r@ == spec_dwarf_result(name@, object_filename@, file@, line),
{
    let mut r = name.to_owned();
    r.append(" (in ");
    r.append(object_filename);
    r.append(") (");
    r.append(file);
    r.append(":");
    let dec = u64_to_dec(line);
    r.append(dec.as_str());
    r.append(")");
    proof {
        assert(r@ =~= spec_dwarf_result(name@, object_filename@, file@, line));
    }
    r
}

/// Whether a character occurs in a string.
pub open spec fn contains_char(s: Seq<char>, c: char) -> bool {
    exists|i: int| 0 <= i < s.len() && s[i] == c
}

proof fn lemma_dec_len(n: int)
    requires
        n >= 0,
    ensures
        spec_dec(n).len() >= 1,
        n >= 10 ==> spec_dec(n).len() >= 2,
    decreases n,
{
    if n >= 10 {
        lemma_dec_len(n / 10);
    }
}

/// Two numbers with the same decimal digit string are equal.
proof fn lemma_dec_injective(a: int, b: int)
    requires
        a >= 0,
        b >= 0,
        spec_dec(a) == spec_dec(b),
    ensures
        a == b,
    decreases a,
{
    if a < 10 && b < 10 {
        assert(spec_dec(a) == seq![spec_digit_char(a)]);
        assert(spec_dec(b) == seq![spec_digit_char(b)]);
        assert(seq![spec_digit_char(a)][0] == spec_digit_char(a));
        assert(seq![spec_digit_char(b)][0] == spec_digit_char(b));
        assert(spec_digit_char(a) == spec_digit_char(b));
    } else if a < 10 {
        lemma_dec_len(b);
        assert(spec_dec(a).len() == 1);
    } else if b < 10 {
        lemma_dec_len(a);
        assert(spec_dec(b).len() == 1);
    } else {
        let sa = spec_dec(a / 10);
        let sb = spec_dec(b / 10);
        let da = spec_digit_char(a % 10);
        let db = spec_digit_char(b % 10);
        assert(sa.push(da) == sb.push(db));
        assert(sa.push(da).last() == da);
        assert(sb.push(db).last() == db);
        assert(sa.push(da).drop_last() =~= sa);
        assert(sb.push(db).drop_last() =~= sb);
        assert(da == db && sa == sb);
        assert(a % 10 == b % 10);
        assert(a / 10 < a) by (nonlinear_arith)
            requires
                a >= 10,
        ;
        lemma_dec_injective(a / 10, b / 10);
        lemma_fundamental_div_mod(a, 10);
        lemma_fundamental_div_mod(b, 10);
    }
}

/// Splitting at the first occurrence of a marker character: when two
/// decompositions of one string each put the marker at offset `k` of their
/// tail and keep it out of their head and out of the tail before `k`, the
/// decompositions agree.
proof fn lemma_sep_split(x1: Seq<char>, y1: Seq<char>, x2: Seq<char>, y2: Seq<char>, sep: char, k: int)
    requires
        x1 + y1 == x2 + y2,
        0 <= k < y1.len(),
        k < y2.len(),
        y1[k] == sep,
        y2[k] == sep,
        !contains_char(x1, sep),
        !contains_char(x2, sep),
        forall|j: int| 0 <= j < k ==> y1[j] != sep,
        forall|j: int| 0 <= j < k ==> y2[j] != sep,
    ensures
        x1 == x2,
        y1 == y2,
{
    let s = x1 + y1;
    if x1.len() < x2.len() {
        let p = x1.len() + k;
        assert(s[p] == y1[k]);
        if p < x2.len() {
            assert((x2 + y2)[p] == x2[p]);
            assert(contains_char(x2, sep));
        } else {
            assert((x2 + y2)[p] == y2[p - x2.len()]);
            assert(p - x2.len() < k);
        }
    } else if x2.len() < x1.len() {
        let p = x2.len() + k;
        assert(s[p] == (x2 + y2)[p] == y2[k]);
        if p < x1.len() {
            assert(s[p] == x1[p]);
            assert(contains_char(x1, sep));
        } else {
            assert(s[p] == y1[p - x1.len()]);
            assert(p - x1.len() < k);
        }
    }
    assert(x1.len() == x2.len());
    assert(x1 =~= s.subrange(0, x1.len() as int));
    assert(x2 =~= (x2 + y2).subrange(0, x2.len() as int));
    assert(y1 =~= s.subrange(x1.len() as int, s.len() as int));
    assert(y2 =~= (x2 + y2).subrange(x2.len() as int, (x2 + y2).len() as int));
}

/// Law: the symbol-hit format parses back to its parts. Whenever two symbol
/// hits format to the same text, the demangled names, object filenames and
/// offsets were the same — provided the name holds no `(` and the filename
/// no `)`, where the text becomes ambiguous.
pub proof fn lemma_symbol_result_injective(
    name1: Seq<char>,
    filename1: Seq<char>,
    offset1: u64,
    name2: Seq<char>,
    filename2: Seq<char>,
    offset2: u64,
)
    requires
        !contains_char(name1, '('),
        !contains_char(name2, '('),
        !contains_char(filename1, ')'),
        !contains_char(filename2, ')'),
        spec_symbol_result(name1, filename1, offset1) == spec_symbol_result(
            name2,
            filename2,
            offset2,
        ),
    ensures
        name1 == name2,
        filename1 == filename2,
        offset1 == offset2,
{
    reveal_strlit(" (in ");
    reveal_strlit(") + ");
    let y1 = " (in "@ + filename1 + ") + "@ + spec_dec(offset1 as int);
    let y2 = " (in "@ + filename2 + ") + "@ + spec_dec(offset2 as int);
    assert(name1 + y1 =~= spec_symbol_result(name1, filename1, offset1));
    assert(name2 + y2 =~= spec_symbol_result(name2, filename2, offset2));
    assert(y1[1] == '(' && y2[1] == '(' && y1[0] != '(' && y2[0] != '(');
    lemma_sep_split(name1, y1, name2, y2, '(', 1);
    let z1 = ") + "@ + spec_dec(offset1 as int);
    let z2 = ") + "@ + spec_dec(offset2 as int);
    assert(filename1 + z1 =~= y1.subrange(5, y1.len() as int));
    assert(filename2 + z2 =~= y2.subrange(5, y2.len() as int));
    assert(z1[0] == ')' && z2[0] == ')');
    lemma_sep_split(filename1, z1, filename2, z2, ')', 0);
    lemma_dec_len(offset1 as int);
    lemma_dec_len(offset2 as int);
    assert(spec_dec(offset1 as int) =~= z1.subrange(4, z1.len() as int));
    assert(spec_dec(offset2 as int) =~= z2.subrange(4, z2.len() as int));
    lemma_dec_injective(offset1 as int, offset2 as int);
}

/// Law: the DWARF-hit format parses back to its parts. Whenever two DWARF
/// hits format to the same text, the demangled names, object filenames,
/// source files and lines were the same — provided the name holds no `(`,
/// the object filename no `)` and the source file no `:`, where the text
/// becomes ambiguous.
pub proof fn lemma_dwarf_result_injective(
    name1: Seq<char>,
    filename1: Seq<char>,
    file1: Seq<char>,
    line1: u64,
    name2: Seq<char>,
    filename2: Seq<char>,
    file2: Seq<char>,
    line2: u64,
)
    requires
        !contains_char(name1, '('),
        !contains_char(name2, '('),
        !contains_char(filename1, ')'),
        !contains_char(filename2, ')'),
        !contains_char(file1, ':'),
        !contains_char(file2, ':'),
        spec_dwarf_result(name1, filename1, file1, line1) == spec_dwarf_result(
            name2,
            filename2,
            file2,
            line2,
        ),
    ensures
        name1 == name2,
        filename1 == filename2,
        file1 == file2,
        line1 == line2,
{
    reveal_strlit(" (in ");
    reveal_strlit(") (");
    reveal_strlit(":");
    reveal_strlit(")");
    let y1 = " (in "@ + filename1 + ") ("@ + file1 + ":"@ + spec_dec(line1 as int) + ")"@;
    let y2 = " (in "@ + filename2 + ") ("@ + file2 + ":"@ + spec_dec(line2 as int) + ")"@;
    assert(name1 + y1 =~= spec_dwarf_result(name1, filename1, file1, line1));
    assert(name2 + y2 =~= spec_dwarf_result(name2, filename2, file2, line2));
    assert(y1[1] == '(' && y2[1] == '(' && y1[0] != '(' && y2[0] != '(');
    lemma_sep_split(name1, y1, name2, y2, '(', 1);
    let z1 = ") ("@ + file1 + ":"@ + spec_dec(line1 as int) + ")"@;
    let z2 = ") ("@ + file2 + ":"@ + spec_dec(line2 as int) + ")"@;
    assert(filename1 + z1 =~= y1.subrange(5, y1.len() as int));
    assert(filename2 + z2 =~= y2.subrange(5, y2.len() as int));
    assert(z1[0] == ')' && z2[0] == ')');
    lemma_sep_split(filename1, z1, filename2, z2, ')', 0);
    let u1 = ":"@ + spec_dec(line1 as int) + ")"@;
    let u2 = ":"@ + spec_dec(line2 as int) + ")"@;
    assert(file1 + u1 =~= z1.subrange(3, z1.len() as int));
    assert(file2 + u2 =~= z2.subrange(3, z2.len() as int));
    assert(u1[0] == ':' && u2[0] == ':');
    lemma_sep_split(file1, u1, file2, u2, ':', 0);
    lemma_dec_len(line1 as int);
    lemma_dec_len(line2 as int);
    assert(spec_dec(line1 as int) + ")"@ =~= u1.subrange(1, u1.len() as int));
    assert(spec_dec(line2 as int) + ")"@ =~= u2.subrange(1, u2.len() as int));
    assert(spec_dec(line1 as int).len() == spec_dec(line2 as int).len());
    assert(spec_dec(line1 as int) =~= (spec_dec(line1 as int) + ")"@).subrange(
        0,
        spec_dec(line1 as int).len() as int,
    ));
    assert(spec_dec(line2 as int) =~= (spec_dec(line2 as int) + ")"@).subrange(
        0,
        spec_dec(line2 as int).len() as int,
    ));
    lemma_dec_injective(line1 as int, line2 as int);
}

} // verus!
