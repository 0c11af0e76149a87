//! Decimal rendering and parsing of unsigned numbers, over ASCII bytes and
//! over character sequences.  Parsing follows the standard library's rules
//! for unsigned integers: an optional leading `+`, then one or more digits,
//! rejected on overflow.

use vstd::prelude::*;

verus! {

/// The decimal digits of `n`, most significant first, as ASCII bytes.
pub open spec fn dec_digits(n: int) -> Seq<u8>
    decreases n,
{
    if n < 0 {
        seq![]
    } else if n < 10 {
        seq![(48 + n) as u8]
    } else {
        dec_digits(n / 10) + seq![(48 + n % 10) as u8]
    }
}

/// Appends the decimal rendering of `n` to `buf`.
pub fn push_dec_u32(buf: &mut Vec<u8>, n: u32)
    ensures
        final(buf)@ == old(buf)@ + dec_digits(n as int),
    decreases n,
{
    if n >= 10 {
        push_dec_u32(buf, n / 10);
    }
    buf.push(48 + (n % 10) as u8);
    assert(final(buf)@ =~= old(buf)@ + dec_digits(n as int));
}

/// The decimal digits of `n` as characters.
pub open spec fn dec_chars(n: int) -> Seq<char> {
    dec_digits(n).map_values(|b: u8| b as char)
}

/// The decimal rendering of `n` as a string.
pub fn u32_to_dec_string(n: u32) -> (s: String)
    ensures
        s@ == dec_chars(n as int),
{
    let mut bytes: Vec<u8> = Vec::new();
    push_dec_u32(&mut bytes, n);
    let mut s = String::new();
    let mut i: usize = 0;
    while i < bytes.len()
        invariant
            i <= bytes@.len(),
            bytes@ == dec_digits(n as int),
            s@ == bytes@.take(i as int).map_values(|b: u8| b as char),
        decreases bytes@.len() - i,
    {
        crate::text::push_char(&mut s, bytes[i] as char);
        proof {
            assert(s@ =~= bytes@.take(i + 1).map_values(|b: u8| b as char));
        }
        i = i + 1;
    }
    proof {
        assert(bytes@.take(bytes@.len() as int) =~= bytes@);
    }
    s
}

/// Whether `b` is an ASCII decimal digit.
pub open spec fn is_digit_byte(b: u8) -> bool {
    48 <= b <= 57
}

/// Whether every byte of `s` is an ASCII decimal digit.
pub open spec fn all_digits_bytes(s: Seq<u8>) -> bool {
    forall|i: int| 0 <= i < s.len() ==> is_digit_byte(s[i])
}

/// The number denoted by the digit bytes `s` (0 for the empty sequence).
pub open spec fn dec_val_bytes(s: Seq<u8>) -> int
    decreases s.len(),
{
    if s.len() == 0 {
        0
    } else {
        dec_val_bytes(s.drop_last()) * 10 + (s.last() - 48)
    }
}

/// `s` without one leading `+`, if present.
pub open spec fn strip_plus_bytes(s: Seq<u8>) -> Seq<u8> {
    if s.len() > 0 && s[0] == 43 {
        s.drop_first()
    } else {
        s
    }
}

/// Parses `s` as a decimal u32: an optional `+`, then one or more digits,
/// value at most `u32::MAX`.  Returns the value exactly when `s` has that
/// form.
pub fn parse_u32_bytes(s: &[u8]) -> (r: Option<u32>)
    ensures
        ({
            let d = strip_plus_bytes(s@);
            &&& (r is Some <==> d.len() > 0 && all_digits_bytes(d) && dec_val_bytes(d)
                <= u32::MAX)
            &&& (r matches Some(v) ==> v == dec_val_bytes(d))
        }),
{
    let ghost d = strip_plus_bytes(s@);
    let start: usize = if s.len() > 0 && s[0] == 43 {
        1
    } else {
        0
    };
    proof {
        assert(d =~= s@.skip(start as int));
    }
    if s.len() == start {
        return None;
    }
    let mut val: u64 = 0;
    let mut i: usize = start;
    while i < s.len()
        invariant
            start <= i <= s@.len(),
            d == strip_plus_bytes(s@),
            d == s@.skip(start as int),
            all_digits_bytes(d.take(i - start)),
            val <= 0x1_0000_0000,
            dec_val_bytes(d.take(i - start)) <= u32::MAX ==> val == dec_val_bytes(
                d.take(i - start),
            ),
            dec_val_bytes(d.take(i - start)) > u32::MAX ==> val == 0x1_0000_0000,
        decreases s@.len() - i,
    {
        let b = s[i];
        if b < 48 || b > 57 {
            proof {
                assert(d[i - start] == b);
                assert(!is_digit_byte(d[i - start]));
                assert(!all_digits_bytes(d));
            }
            return None;
        }
        let digit = (b - 48) as u64;
        let next = val * 10 + digit;
        proof {
            assert(d.take(i + 1 - start).drop_last() =~= d.take(i - start));
            assert(d.take(i + 1 - start).last() == b);
        }
        val = if next > 0xffff_ffff {
            0x1_0000_0000
        } else {
            next
        };
        i = i + 1;
    }
    proof {
        assert(d.take(s@.len() - start) =~= d);
    }
    if val > 0xffff_ffff {
        None
    } else {
        Some(val as u32)
    }
}

/// Whether `c` is an ASCII decimal digit.
pub open spec fn is_digit_char(c: char) -> bool {
    48 <= c as u32 <= 57
}

/// Whether every character of `s` is an ASCII decimal digit.
pub open spec fn all_digits_chars(s: Seq<char>) -> bool {
    forall|i: int| 0 <= i < s.len() ==> is_digit_char(s[i])
}

/// The number denoted by the digit characters `s` (0 for the empty sequence).
pub open spec fn dec_val_chars(s: Seq<char>) -> int
    decreases s.len(),
{
    if s.len() == 0 {
        0
    } else {
        dec_val_chars(s.drop_last()) * 10 + (s.last() as u32 - 48)
    }
}

/// `s` without one leading `+`, if present.
pub open spec fn strip_plus_chars(s: Seq<char>) -> Seq<char> {
    if s.len() > 0 && s[0] == '+' {
        s.drop_first()
    } else {
        s
    }
}

/// Parses the characters `from..to` of `s` as a decimal number of at most
/// `max`: an optional `+`, then one or more digits.  Returns the value
/// exactly when that range has that form.
pub fn parse_uint_str(s: &str, from: usize, to: usize, max: u64) -> (r: Option<u64>)
    requires
        from <= to <= s@.len(),
    ensures
        ({
            let d = strip_plus_chars(s@.subrange(from as int, to as int));
            &&& (r is Some <==> d.len() > 0 && all_digits_chars(d) && dec_val_chars(d) <= max)
            &&& (r matches Some(v) ==> v == dec_val_chars(d))
        }),
{
    let ghost whole = s@.subrange(from as int, to as int);
    let ghost d = strip_plus_chars(whole);
    let start: usize = if from < to && s.get_char(from) == '+' {
        from + 1
    } else {
        from
    };
    proof {
        assert(d =~= s@.subrange(start as int, to as int));
    }
    if start == to {
        return None;
    }
    let mut val: u64 = 0;
    let mut too_big: bool = false;
    let mut i: usize = start;
    while i < to
        invariant
            start <= i <= to <= s@.len(),
            d == strip_plus_chars(s@.subrange(from as int, to as int)),
            from <= start,
            d == s@.subrange(start as int, to as int),
            all_digits_chars(d.take(i - start)),
            !too_big ==> val == dec_val_chars(d.take(i - start)) && val <= max,
            too_big ==> dec_val_chars(d.take(i - start)) > max,
        decreases to - i,
    {
        let c = s.get_char(i);
        let cv = c as u32;
        if cv < 48 || cv > 57 {
            proof {
                assert(d[i - start] == c);
                assert(!is_digit_char(d[i - start]));
                assert(!all_digits_chars(d));
            }
            return None;
        }
        let digit = (cv - 48) as u64;
        proof {
            assert(d.take(i + 1 - start).drop_last() =~= d.take(i - start));
            assert(d.take(i + 1 - start).last() == c);
        }
        if !too_big {
            if val > (0xffff_ffff_ffff_ffff - digit) / 10 {
                too_big = true;
                proof {
                    assert(dec_val_chars(d.take(i + 1 - start)) > max) by (nonlinear_arith)
                        requires
                            dec_val_chars(d.take(i + 1 - start)) == dec_val_chars(
                                d.take(i - start),
                            ) * 10 + digit,
                            val == dec_val_chars(d.take(i - start)),
                            val > (0xffff_ffff_ffff_ffff - digit) / 10,
                            digit <= 9,
                            max <= 0xffff_ffff_ffff_ffff,
                    ;
                }
            } else {
                proof {
                    assert(val * 10 + digit <= 0xffff_ffff_ffff_ffff) by (nonlinear_arith)
                        requires
                            val <= (0xffff_ffff_ffff_ffff - digit) / 10,
                            digit <= 9,
                    ;
                }
                val = val * 10 + digit;
                if val > max {
                    too_big = true;
                }
            }
        } else {
            proof {
                assert(dec_val_chars(d.take(i - start)) * 10 + (cv - 48) > max) by (nonlinear_arith)
                    requires
                        dec_val_chars(d.take(i - start)) > max,
                        max >= 0,
                        cv >= 48,
                ;
            }
        }
        i = i + 1;
    }
    proof {
        assert(d.take(to - start) =~= d);
    }
    if too_big {
        None
    } else {
        Some(val)
    }
}

} // verus!
