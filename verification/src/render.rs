//! Rendering of capability values as display lines.
//!
//! Every capability renders as `name: value`.  A boolean renders its
//! support flag, a numeric its decimal value, and a string capability its
//! escaped text, with `NULL` standing for an absent value.

use vstd::prelude::*;
use vstd::string::StringExecFns;

use crate::ascii::all_ascii;
use crate::ascii::ascii_chars;
use crate::ascii::ascii_to_string;

verus! {

/// The decimal digits of a nonnegative value, most significant first.
pub open spec fn dec_digits(n: int) -> Seq<u8>
    decreases n,
{
    if n < 10 {
        seq![(0x30 + n) as u8]
    } else {
        dec_digits(n / 10).push((0x30 + n % 10) as u8)
    }
}

/// The decimal rendering of an integer: a minus sign for a negative
/// value, then its digits.
pub open spec fn decimal_bytes(v: int) -> Seq<u8> {
    if v < 0 {
        seq![0x2du8] + dec_digits(-v)
    } else {
        dec_digits(v)
    }
}

/// The decimal digits of a nonnegative value are ASCII.
proof fn lemma_dec_digits_ascii(n: int)
    requires
        n >= 0,
    ensures
        all_ascii(dec_digits(n)),
    decreases n,
{
    if n >= 10 {
        lemma_dec_digits_ascii(n / 10);
    }
}

/// The decimal rendering of any integer is ASCII.
proof fn lemma_decimal_bytes_ascii(v: int)
    ensures
        all_ascii(decimal_bytes(v)),
{
    if v < 0 {
        lemma_dec_digits_ascii(-v);
    } else {
        lemma_dec_digits_ascii(v);
    }
}

/// Renders an integer in decimal.
fn decimal_value(v: i32) -> (r: Vec<u8>)
    ensures
        r@ == decimal_bytes(v as int),
{
    let neg: bool = v < 0;
    let mut m: u64 = if v < 0 {
        (-(v as i64)) as u64
    } else {
        v as u64
    };
    let ghost m0: int = m as int;
    let mut rev: Vec<u8> = Vec::new();
    while m >= 10
        invariant
            m >= 0,
            dec_digits(m0) == dec_digits(m as int) + Seq::new(
                rev@.len(),
                |k: int| rev@[rev@.len() - 1 - k],
            ),
        decreases m,
    {
        let d: u8 = (m % 10) as u8 + 0x30;
        proof {
            let before = Seq::new(rev@.len(), |k: int| rev@[rev@.len() - 1 - k]);
            assert(Seq::new(rev@.push(d).len(), |k: int| rev@.push(d)[rev@.push(d).len() - 1 - k])
                =~= seq![d] + before);
            assert(dec_digits(m as int) == dec_digits(m as int / 10).push(d));
            assert(dec_digits(m as int / 10) + (seq![d] + before) =~= dec_digits(m as int)
                + before);
        }
        rev.push(d);
        m = m / 10;
    }
    let ghost header: Seq<u8> = if neg {
        seq![0x2du8]
    } else {
        Seq::empty()
    };
    let ghost digits: Seq<u8> = dec_digits(m0);
    proof {
        assert(digits =~= seq![(0x30 + m as int) as u8] + Seq::new(
            rev@.len(),
            |k: int| rev@[rev@.len() - 1 - k],
        ));
    }
    let mut out: Vec<u8> = Vec::new();
    if neg {
        out.push(0x2d);
    }
    out.push((m as u8) + 0x30);
    proof {
        assert(out@ =~= header + digits.take(1));
    }
    let mut k: usize = rev.len();
    while k > 0
        invariant
            k <= rev@.len(),
            digits == seq![(0x30 + m as int) as u8] + Seq::new(
                rev@.len(),
                |x: int| rev@[rev@.len() - 1 - x],
            ),
            out@ == header + digits.take(digits.len() - k),
        decreases k,
    {
        proof {
            assert(digits[digits.len() - k] == rev@[k - 1]);
            assert(digits.take(digits.len() - (k - 1)) =~= digits.take(digits.len() - k).push(
                digits[digits.len() - k],
            ));
            assert(out@.push(rev@[k - 1]) =~= header + digits.take(digits.len() - (k - 1)));
        }
        let d: u8 = rev[k - 1];
        out.push(d);
        k = k - 1;
    }
    proof {
        assert(digits.take(digits.len() as int) =~= digits);
        assert(out@ =~= decimal_bytes(v as int));
    }
    out
}

/// Renders a capability display line: the capability's name, a separating
/// colon, and the rendered value, with `NULL` standing for an absent one.
pub fn caption(name: &str, rendered: Option<&str>) -> (r: String)
    ensures
        rendered matches Some(v) ==> r@ == name@ + ": "@ + v@,
        rendered is None ==> r@ == name@ + ": "@ + "NULL"@,
{
    let mut line = name.to_owned();
    line.append(": ");
    match rendered {
        Some(v) => line.append(v),
        None => line.append("NULL"),
    }
    line
}

/// Renders the display line of a boolean capability.
pub fn bool_caption(name: &str, supported: bool) -> (r: String)
    ensures
        r@ == name@ + ": "@ + (if supported {
            "true"@
        } else {
            "false"@
        }),
{
    let mut line = name.to_owned();
    line.append(": ");
    if supported {
        line.append("true");
    } else {
        line.append("false");
    }
    line
}

/// Renders the display line of a numeric capability, its value in
/// decimal.
pub fn numeric_caption(name: &str, value: i32) -> (r: String)
    ensures
        r@ == name@ + ": "@ + ascii_chars(decimal_bytes(value as int)),
{
    let mut line = name.to_owned();
    line.append(": ");
    let digits = decimal_value(value);
    proof {
        lemma_decimal_bytes_ascii(value as int);
    }
    let text = ascii_to_string(digits);
    line.append(text.as_str());
    line
}

} // verus!
