//! Strict parsing of address strings: `0x`-prefixed hexadecimal or plain
//! decimal, no whitespace, no sign.

use vstd::prelude::*;
use vstd::string::StringSliceAdditionalSpecFns;

verus! {

/// The value of one ASCII digit byte, or 16 when it is no digit of any
/// radix in use here.
pub open spec fn spec_digit_val(b: u8) -> int {
    if 48 <= b <= 57 {
        b - 48
    } else if 65 <= b <= 70 {
        b - 55
    } else if 97 <= b <= 102 {
        b - 87
    } else {
        16
    }
}

/// Whether a byte is a digit under the radix.
pub open spec fn digit_ok(b: u8, radix: int) -> bool {
    spec_digit_val(b) < radix
}

/// The value of a digit string under the radix, most significant first;
/// none when any byte is no digit. The empty string has value zero.
pub open spec fn spec_digits_val(bs: Seq<u8>, radix: int) -> Option<int>
    decreases bs.len(),
{
    if bs.len() == 0 {
        Some(0)
    } else {
        match spec_digits_val(bs.drop_last(), radix) {
            Some(v) => if digit_ok(bs.last(), radix) {
                Some(v * radix + spec_digit_val(bs.last()))
            } else {
                None
            },
            None => None,
        }
    }
}

/// The parsed 64-bit value of a nonempty digit string: none on an empty
/// string, an invalid digit, or a value past the 64-bit range.
pub open spec fn spec_parse_u64(bs: Seq<u8>, radix: int) -> Option<u64> {
    if bs.len() == 0 {
        None
    } else {
        match spec_digits_val(bs, radix) {
            Some(v) => if v <= u64::MAX {
                Some(v as u64)
            } else {
                None
            },
            None => None,
        }
    }
}

/// The parsed address: hexadecimal after one `0x` prefix, decimal otherwise.
pub open spec fn spec_parse_address(bs: Seq<u8>) -> Option<u64> {
    if bs.len() >= 2 && bs[0] == 48u8 && bs[1] == 120u8 {
        spec_parse_u64(bs.skip(2), 16)
    } else {
        spec_parse_u64(bs, 10)
    }
}

/// A digit value is never negative, and a digit string's value is never
/// negative.
proof fn lemma_digits_nonneg(bs: Seq<u8>, radix: int)
    requires
        radix == 10 || radix == 16,
    ensures
        match spec_digits_val(bs, radix) {
            Some(v) => v >= 0,
            None => true,
        },
    decreases bs.len(),
{
    if bs.len() > 0 {
        lemma_digits_nonneg(bs.drop_last(), radix);
        match spec_digits_val(bs.drop_last(), radix) {
            Some(v) => {
                assert(v * radix >= 0) by (nonlinear_arith)
                    requires
                        v >= 0,
                        radix > 0,
                ;
            },
            None => {},
        }
    }
}

/// Extending a digit string never shrinks its value, and never repairs an
/// invalid one.
proof fn lemma_digits_extend(p: Seq<u8>, q: Seq<u8>, radix: int)
    requires
        radix == 10 || radix == 16,
    ensures
        match spec_digits_val(p, radix) {
            Some(v) => match spec_digits_val(p + q, radix) {
                Some(w) => w >= v,
                None => true,
            },
            None => spec_digits_val(p + q, radix) is None,
        },
    decreases q.len(),
{
    if q.len() == 0 {
        assert(p + q =~= p);
    } else {
        lemma_digits_extend(p, q.drop_last(), radix);
        assert((p + q).drop_last() =~= p + q.drop_last());
        assert((p + q).last() == q.last());
        lemma_digits_nonneg(p + q.drop_last(), radix);
        match spec_digits_val(p + q.drop_last(), radix) {
            Some(w) => {
                assert(w * radix >= w) by (nonlinear_arith)
                    requires
                        w >= 0,
                        radix >= 1,
                ;
            },
            None => {},
        }
    }
}

/// Parse an address string: `0x`-prefixed hexadecimal or plain decimal,
/// strictly — any other byte, an empty digit string, or a value past the
/// 64-bit range yields nothing.
pub fn parse_address_string(address: &str) -> (r: Option<u64>)
    ensures
        r == spec_parse_address(address.spec_bytes()),
{
    let bytes = address.as_bytes();
    let hex_prefixed = bytes.len() >= 2 && bytes[0] == 48 && bytes[1] == 120;
    let start: usize = if hex_prefixed {
        2
    } else {
        0
    };
    let radix: u64 = if hex_prefixed {
        16
    } else {
        10
    };
    let n = bytes.len();
    let ghost digits = if hex_prefixed {
        bytes@.skip(2)
    } else {
        bytes@
    };
    if n == start {
        proof {
            assert(digits.len() == 0);
        }
        return None;
    }
    let mut value: u64 = 0;
    proof {
        if hex_prefixed {
            assert(bytes@.skip(2) =~= bytes@.subrange(2, n as int));
        } else {
            assert(bytes@ =~= bytes@.subrange(0, n as int));
        }
        assert(spec_digits_val(digits.subrange(0, 0), radix as int) == Some(0int));
    }
    for i in start..n
        invariant
            n == bytes@.len(),
            start <= i <= n,
            radix == 10 || radix == 16,
            start == 0 || start == 2,
            digits == bytes@.subrange(start as int, n as int),
            spec_digits_val(
                digits.subrange(0, i - start),
                radix as int,
            ) == Some(value as int),
            spec_parse_address(address.spec_bytes()) == spec_parse_u64(digits, radix as int),
    {
        let b = bytes[i];
        let d: u64 = if b >= 48 && b <= 57 {
            (b - 48) as u64
        } else if b >= 65 && b <= 70 {
            (b - 55) as u64
        } else if b >= 97 && b <= 102 {
            (b - 87) as u64
        } else {
            16
        };
        let ghost done = digits.subrange(0, i - start);
        let ghost step = digits.subrange(0, i + 1 - start);
        proof {
            assert(step.drop_last() =~= done);
            assert(step.last() == digits[i - start] == bytes@[i as int]);
            assert(step + digits.skip(i + 1 - start) =~= digits);
        }
        if d >= radix {
            proof {
                assert(!digit_ok(b, radix as int));
                assert(spec_digits_val(step, radix as int) is None);
                lemma_digits_extend(step, digits.skip(i + 1 - start), radix as int);
            }
            return None;
        }
        let next = match value.checked_mul(radix) {
            Some(m) => m.checked_add(d),
            None => None,
        };
        match next {
            Some(nv) => {
                proof {
                    assert(spec_digits_val(step, radix as int) == Some(nv as int));
                }
                value = nv;
            },
            None => {
                proof {
                    assert(value * radix + d > u64::MAX);
                    assert(spec_digits_val(step, radix as int) == Some(
                        value * radix + spec_digit_val(b),
                    ));
                    lemma_digits_extend(step, digits.skip(i + 1 - start), radix as int);
                }
                return None;
            },
        }
    }
    proof {
        assert(digits.subrange(0, n - start) =~= digits);
    }
    Some(value)
}

} // verus!
