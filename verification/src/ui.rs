//! Text helpers for the presentation layer: truncation to a column
//! width and human-readable byte sizes.  Rendering itself is an
//! external collaborator that only reads these strings.

use vstd::prelude::*;
use vstd::string::{StrSliceExecFns, StringExecFns};

verus! {

/// What `truncate_text` returns: the text itself when it fits, else
/// its first `max_width - 3` characters followed by an ellipsis.
pub open spec fn truncated_text(s: Seq<char>, max_width: int) -> Seq<char> {
    if s.len() <= max_width {
        s
    } else {
        s.take(if max_width >= 3 { max_width - 3 } else { 0int }) + "..."@
    }
}

/// Truncate text to fit within the given width, in characters.
pub fn truncate_text(text: &str, max_width: usize) -> (r: String)
    ensures
        r@ == truncated_text(text@, max_width as int),
{
    let n = text.unicode_len();
    if n <= max_width {
        text.to_owned()
    } else {
        let keep: usize = if max_width >= 3 { max_width - 3 } else { 0 };
        let mut r = text.substring_char(0, keep).to_owned();
        r.append("...");
        assert(text@.subrange(0, keep as int) == text@.take(keep as int));
        r
    }
}

/// The character for one decimal digit.
pub open spec fn digit_char(d: int) -> char
    recommends
        0 <= d < 10,
{
    (48 + d) as char
}

/// The decimal notation of a natural number.
pub open spec fn dec_of(n: int) -> Seq<char>
    recommends
        n >= 0,
    decreases n,
{
    if n < 10 {
        seq![digit_char(n)]
    } else {
        dec_of(n / 10) + seq![digit_char(n % 10)]
    }
}

/// Append one decimal digit to a string.
fn push_digit(s: &mut String, d: u8)
    requires
        d < 10,
    ensures
        final(s)@ == old(s)@ + seq![digit_char(d as int)],
{
    proof {
        reveal_strlit("0");
        reveal_strlit("1");
        reveal_strlit("2");
        reveal_strlit("3");
        reveal_strlit("4");
        reveal_strlit("5");
        reveal_strlit("6");
        reveal_strlit("7");
        reveal_strlit("8");
        reveal_strlit("9");
    }
    match d {
        0 => s.append("0"),
        1 => s.append("1"),
        2 => s.append("2"),
        3 => s.append("3"),
        4 => s.append("4"),
        5 => s.append("5"),
        6 => s.append("6"),
        7 => s.append("7"),
        8 => s.append("8"),
        _ => s.append("9"),
    }
}

/// Append the decimal notation of `n` to a string.
pub fn push_u64_dec(s: &mut String, n: u64)
    ensures
        final(s)@ == old(s)@ + dec_of(n as int),
    decreases n,
{
    if n >= 10 {
        push_u64_dec(s, n / 10);
    }
    push_digit(s, (n % 10) as u8);
    proof {
        if n < 10 {
        } else {
            assert(old(s)@ + dec_of(n as int)
                == (old(s)@ + dec_of(n as int / 10)) + seq![digit_char(n as int % 10)]);
        }
    }
}

/// The unit exponent a size is displayed with: the number of times it
/// can be divided by 1024 while staying at least 1, capped at the
/// largest supported unit.
pub open spec fn size_unit_index(n: int) -> int {
    if n < 1024 {
        0
    } else if n < 1048576 {
        1
    } else if n < 1073741824 {
        2
    } else if n < 1099511627776 {
        3
    } else {
        4
    }
}

/// The divisor belonging to a unit exponent.
pub open spec fn size_unit_divisor(i: int) -> int {
    if i <= 1 {
        1024
    } else if i == 2 {
        1048576
    } else if i == 3 {
        1073741824
    } else {
        1099511627776
    }
}

/// The suffix belonging to a unit exponent.
pub open spec fn size_unit_suffix(i: int) -> Seq<char> {
    if i <= 0 {
        " B"@
    } else if i == 1 {
        " KB"@
    } else if i == 2 {
        " MB"@
    } else if i == 3 {
        " GB"@
    } else {
        " TB"@
    }
}

/// What `format_file_size` returns.  Below 1024 the size is printed in
/// bytes; above, it is scaled by the matching power of 1024 and
/// printed with one decimal digit, rounding half away from zero.
pub open spec fn formatted_file_size(n: int) -> Seq<char> {
    let i = size_unit_index(n);
    if i == 0 {
        dec_of(n) + " B"@
    } else {
        let d = size_unit_divisor(i);
        let tenths = (n * 10 + d / 2) / d;
        dec_of(tenths / 10) + "."@ + seq![digit_char(tenths % 10)] + size_unit_suffix(i)
    }
}

/// Format a byte count in a human-readable unit.
pub fn format_file_size(size: u64) -> (r: String)
    ensures
        r@ == formatted_file_size(size as int),
{
    let mut r = String::new();
    if size < 1024 {
        push_u64_dec(&mut r, size);
        r.append(" B");
        return r;
    }
    let d: u128 = if size < 1048576 {
        1024
    } else if size < 1073741824 {
        1048576
    } else if size < 1099511627776 {
        1073741824
    } else {
        1099511627776
    };
    let tenths: u128 = ((size as u128) * 10 + d / 2) / d;
    assert(tenths * (d as int) <= size as int * 10 + d as int / 2) by (nonlinear_arith)
        requires
            d > 0,
            tenths == ((size as int) * 10 + d as int / 2) / (d as int),
    ;
    assert(tenths <= u64::MAX) by (nonlinear_arith)
        requires
            d >= 1024,
            tenths * (d as int) <= size as int * 10 + d as int / 2,
            size <= u64::MAX,
    ;
    push_u64_dec(&mut r, (tenths / 10) as u64);
    r.append(".");
    push_digit(&mut r, (tenths % 10) as u8);
    if size < 1048576 {
        r.append(" KB");
    } else if size < 1073741824 {
        r.append(" MB");
    } else if size < 1099511627776 {
        r.append(" GB");
    } else {
        r.append(" TB");
    }
    r
}

} // verus!
