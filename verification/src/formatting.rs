//! Human-readable number formatting: byte sizes with unit selection, one
//! decimal place computed by round-half-even on the exact quotient, and
//! large numbers with thousands separators.

use vstd::prelude::*;

verus! {

/// Display unit for byte values. `Auto` picks the largest unit the value
/// reaches.
#[derive(Debug, Clone, Copy, PartialEq, Eq, Structural)]
pub enum Unit {
    /// Pick Bytes/KB/MB/GB/TB from the value's size.
    Auto,
    /// Always bytes.
    Bytes,
    /// Always kilobytes.
    KB,
    /// Always megabytes.
    MB,
    /// Always gigabytes.
    GB,
    /// Always terabytes.
    TB,
}

impl Unit {
    /// Cycle to the next display unit, wrapping from `TB` back to `Auto`.
    pub fn next(self) -> (r: Self)
        ensures
            r == match self {
                Unit::Auto => Unit::Bytes,
                Unit::Bytes => Unit::KB,
                Unit::KB => Unit::MB,
                Unit::MB => Unit::GB,
                Unit::GB => Unit::TB,
                Unit::TB => Unit::Auto,
            },
    {
        match self {
            Unit::Auto => Unit::Bytes,
            Unit::Bytes => Unit::KB,
            Unit::KB => Unit::MB,
            Unit::MB => Unit::GB,
            Unit::GB => Unit::TB,
            Unit::TB => Unit::Auto,
        }
    }
}

/// The character of one decimal digit.
pub open spec fn digit_char(d: nat) -> char {
    if d == 0 {
        '0'
    } else if d == 1 {
        '1'
    } else if d == 2 {
        '2'
    } else if d == 3 {
        '3'
    } else if d == 4 {
        '4'
    } else if d == 5 {
        '5'
    } else if d == 6 {
        '6'
    } else if d == 7 {
        '7'
    } else if d == 8 {
        '8'
    } else {
        '9'
    }
}

/// The decimal digits of `n`, most significant first.
pub open spec fn spec_decimal(n: nat) -> Seq<char>
    decreases n,
{
    if n < 10 {
        seq![digit_char(n)]
    } else {
        spec_decimal(n / 10) + seq![digit_char(n % 10)]
    }
}

/// One decimal digit as a borrowed one-character string.
fn digit_str(d: u8) -> (r: &'static str)
    requires
        d < 10,
    ensures
        r@ == seq![digit_char(d as nat)],
{
    let digits = "0123456789";
    proof {
        reveal_strlit("0123456789");
    }
    let r = digits.substring_ascii(d as usize, d as usize + 1);
    proof {
        assert(r@ =~= seq![digit_char(d as nat)]);
    }
    r
}

/// Append the decimal digits of `n` to `out`.
fn push_decimal(n: u128, out: &mut String)
    ensures
        final(out)@ == old(out)@ + spec_decimal(n as nat),
    decreases n,
{
    if n >= 10 {
        push_decimal(n / 10, out);
    }
    let d: u8 = (n % 10) as u8;
    out.append(digit_str(d));
    proof {
        if n >= 10 {
            assert(old(out)@ + spec_decimal((n / 10) as nat) + seq![digit_char((n % 10) as nat)]
                =~= old(out)@ + spec_decimal(n as nat));
        } else {
            assert(old(out)@ + seq![digit_char(n as nat)] =~= old(out)@ + spec_decimal(n as nat));
        }
    }
}

/// The decimal rendering of an unsigned number.
pub fn u64_to_string(n: u64) -> (r: String)
    ensures
        r@ == spec_decimal(n as nat),
{
    let mut out = String::new();
    push_decimal(n as u128, &mut out);
    proof {
        assert(Seq::<char>::empty() + spec_decimal(n as nat) =~= spec_decimal(n as nat));
    }
    out
}

/// `10 * bytes / unit` rounded to the nearest integer, ties to even: the
/// value in tenths of a unit that one-decimal display shows.
pub open spec fn tenths(bytes: nat, unit: nat) -> nat {
    let q = (10 * bytes) / unit;
    let r = (10 * bytes) % unit;
    if 2 * r > unit {
        q + 1
    } else if 2 * r < unit {
        q
    } else if q % 2 == 0 {
        q
    } else {
        q + 1
    }
}

/// A value scaled to a unit, shown with one decimal place and a suffix.
pub open spec fn spec_scaled(bytes: nat, unit: nat, suffix: Seq<char>) -> Seq<char> {
    spec_decimal(tenths(bytes, unit) / 10) + seq!['.'] + seq![
        digit_char(tenths(bytes, unit) % 10),
    ] + suffix
}

/// Append `bytes` scaled to `unit` with one decimal place, then `suffix`.
fn push_scaled(bytes: u64, unit: u64, suffix: &str, out: &mut String)
    requires
        unit >= 1,
    ensures
        final(out)@ == old(out)@ + spec_scaled(bytes as nat, unit as nat, suffix@),
{
    let num: u128 = bytes as u128 * 10;
    let q: u128 = num / unit as u128;
    let r: u128 = num % unit as u128;
    let t: u128 = if 2 * r > unit as u128 {
        q + 1
    } else if 2 * r < unit as u128 {
        q
    } else if q % 2 == 0 {
        q
    } else {
        q + 1
    };
    push_decimal(t / 10, out);
    out.append(".");
    out.append(digit_str((t % 10) as u8));
    out.append(suffix);
    proof {
        reveal_strlit(".");
        assert(t as nat == tenths(bytes as nat, unit as nat));
        assert(old(out)@ + spec_decimal((t / 10) as nat) + "."@ + seq![
            digit_char((t % 10) as nat),
        ] + suffix@ =~= old(out)@ + spec_scaled(bytes as nat, unit as nat, suffix@));
    }
}

/// One kilobyte, in bytes.
pub const KB: u64 = 0x400;

/// One megabyte, in bytes.
pub const MB: u64 = 0x100000;

/// One gigabyte, in bytes.
pub const GB: u64 = 0x40000000;

/// One terabyte, in bytes.
pub const TB: u64 = 0x10000000000;

/// What `format_bytes_unit` renders: the value in the requested unit, or
/// under `Auto` in the largest of bytes/KB/MB/GB/TB that it reaches.
pub open spec fn spec_format_bytes_unit(bytes: nat, unit: Unit) -> Seq<char> {
    match unit {
        Unit::Auto => {
            if bytes >= 0x10000000000 {
                spec_scaled(bytes, 0x10000000000, " TB"@)
            } else if bytes >= 0x40000000 {
                spec_scaled(bytes, 0x40000000, " GB"@)
            } else if bytes >= 0x100000 {
                spec_scaled(bytes, 0x100000, " MB"@)
            } else if bytes >= 0x400 {
                spec_scaled(bytes, 0x400, " KB"@)
            } else {
                spec_decimal(bytes) + " B"@
            }
        },
        Unit::Bytes => spec_decimal(bytes) + " B"@,
        Unit::KB => spec_scaled(bytes, 0x400, " KB"@),
        Unit::MB => spec_scaled(bytes, 0x100000, " MB"@),
        Unit::GB => spec_scaled(bytes, 0x40000000, " GB"@),
        Unit::TB => spec_scaled(bytes, 0x10000000000, " TB"@),
    }
}

/// Format a byte count in the given display unit, one decimal place for the
/// scaled units (e.g. `1.5 KB`), a plain count for bytes (e.g. `512 B`).
pub fn format_bytes_unit(bytes: u64, unit: Unit) -> (r: String)
    ensures
        r@ == spec_format_bytes_unit(bytes as nat, unit),
{
    let mut out = String::new();
    let ghost empty = out@;
    match unit {
        Unit::Auto => {
            if bytes >= TB {
                push_scaled(bytes, TB, " TB", &mut out);
            } else if bytes >= GB {
                push_scaled(bytes, GB, " GB", &mut out);
            } else if bytes >= MB {
                push_scaled(bytes, MB, " MB", &mut out);
            } else if bytes >= KB {
                push_scaled(bytes, KB, " KB", &mut out);
            } else {
                push_decimal(bytes as u128, &mut out);
                out.append(" B");
            }
        },
        Unit::Bytes => {
            push_decimal(bytes as u128, &mut out);
            out.append(" B");
        },
        Unit::KB => push_scaled(bytes, KB, " KB", &mut out),
        Unit::MB => push_scaled(bytes, MB, " MB", &mut out),
        Unit::GB => push_scaled(bytes, GB, " GB", &mut out),
        Unit::TB => push_scaled(bytes, TB, " TB", &mut out),
    }
    proof {
        assert(empty + spec_format_bytes_unit(bytes as nat, unit) =~= spec_format_bytes_unit(
            bytes as nat,
            unit,
        ));
        assert(empty + (spec_decimal(bytes as nat) + " B"@) =~= empty + spec_decimal(bytes as nat)
            + " B"@);
    }
    out
}

/// Format a byte count with the unit picked automatically.
pub fn format_bytes(bytes: u64) -> (r: String)
    ensures
        r@ == spec_format_bytes_unit(bytes as nat, Unit::Auto),
{
    format_bytes_unit(bytes, Unit::Auto)
}

/// Decimal digits grouped in threes from the right with commas.
pub open spec fn spec_group_commas(digits: Seq<char>) -> Seq<char>
    decreases digits.len(),
{
    if digits.len() <= 3 {
        digits
    } else {
        spec_group_commas(digits.take(digits.len() - 3)) + seq![','] + digits.skip(
            digits.len() - 3,
        )
    }
}

/// What `format_number` renders: the decimal digits with thousands
/// separators.
pub open spec fn spec_format_number(n: nat) -> Seq<char> {
    spec_group_commas(spec_decimal(n))
}

/// Append `digits` with a comma before every trailing group of three.
fn push_grouped(digits: &str, out: &mut String)
    ensures
        final(out)@ == old(out)@ + spec_group_commas(digits@),
    decreases digits@.len(),
{
    let n = digits.unicode_len();
    if n <= 3 {
        out.append(digits);
    } else {
        let head = digits.substring_char(0, n - 3);
        let tail = digits.substring_char(n - 3, n);
        push_grouped(head, out);
        out.append(",");
        out.append(tail);
        proof {
            reveal_strlit(",");
            assert(head@ =~= digits@.take(digits@.len() - 3));
            assert(tail@ =~= digits@.skip(digits@.len() - 3));
            assert(old(out)@ + spec_group_commas(head@) + ","@ + tail@ =~= old(out)@
                + spec_group_commas(digits@));
        }
    }
}

/// Format a number with comma thousands separators, e.g. `1,234,567`.
pub fn format_number(value: u64) -> (r: String)
    ensures
        r@ == spec_format_number(value as nat),
{
    let digits = u64_to_string(value);
    let mut out = String::new();
    push_grouped(digits.as_str(), &mut out);
    proof {
        assert(Seq::<char>::empty() + spec_group_commas(digits@) =~= spec_format_number(
            value as nat,
        ));
    }
    out
}

} // verus!
