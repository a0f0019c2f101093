//! Small helpers: human-readable sizes and file-name sanitising.

use vstd::prelude::*;

verus! {

use crate::text::{
    chars_of,
    char_is_alphanumeric,
    dec_digits,
    digit_char,
    is_alnum,
    push_char,
    u64_to_string,
};
use vstd::arithmetic::div_mod::{lemma_div_is_ordered, lemma_div_is_ordered_by_denominator};
use vstd::string::StringExecFns;

pub const KB: u64 = 1024;

pub const MB: u64 = KB * 1024;

pub const GB: u64 = MB * 1024;

/// A file-name character is kept if it is alphanumeric, `-`, `_` or `.`;
/// anything else becomes `_`.
pub open spec fn sanitized_char(c: char) -> char {
    if is_alnum(c) || c == '-' || c == '_' || c == '.' {
        c
    } else {
        '_'
    }
}

/// Every character mapped through `sanitized_char`.
pub fn sanitize_filename(filename: &str) -> (r: String)
    ensures
        r@ == filename@.map_values(|c: char| sanitized_char(c)),
{
    let v = chars_of(filename);
    let mut out = String::new();
    let mut i: usize = 0;
    while i < v.len()
        invariant
            0 <= i <= v@.len(),
            v@ == filename@,
            out@.len() == i,
            forall|m: int| 0 <= m < i ==> out@[m] == sanitized_char(#[trigger] v@[m]),
        decreases v@.len() - i,
    {
        let c = v[i];
        if char_is_alphanumeric(c) || c == '-' || c == '_' || c == '.' {
            push_char(&mut out, c);
        } else {
            push_char(&mut out, '_');
        }
        i = i + 1;
    }
    proof {
        assert(out@ =~= filename@.map_values(|c: char| sanitized_char(c)));
    }
    out
}

/// `bytes` scaled by `unit` with one fractional digit, rounded half away
/// from zero.
pub open spec fn scaled_tenths(bytes: nat, unit: nat) -> nat {
    (bytes * 10 + unit / 2) / unit
}

/// The digits of a scaled value: whole part, a dot, one fractional digit.
pub open spec fn scaled_digits(bytes: nat, unit: nat) -> Seq<char> {
    dec_digits(scaled_tenths(bytes, unit) / 10).push('.').push(
        digit_char(scaled_tenths(bytes, unit) % 10),
    )
}

/// A byte count in human-readable form: plain bytes below one kibibyte,
/// otherwise the largest of KB, MB and GB that is reached, to one decimal.
pub open spec fn file_size_text(bytes: nat) -> Seq<char> {
    if bytes < KB {
        dec_digits(bytes) + " B"@
    } else if bytes < MB {
        scaled_digits(bytes, KB as nat) + " KB"@
    } else if bytes < GB {
        scaled_digits(bytes, MB as nat) + " MB"@
    } else {
        scaled_digits(bytes, GB as nat) + " GB"@
    }
}

/// The whole and fractional digits of `bytes / unit`, in tenths.
fn scaled_string(bytes: u64, unit: u64) -> (r: String)
    requires
        1024 <= unit,
    ensures
        r@ == scaled_digits(bytes as nat, unit as nat),
{
    let wide = (bytes as u128) * 10 + (unit as u128) / 2;
    let tenths_wide = wide / (unit as u128);
    proof {
        lemma_div_is_ordered_by_denominator(wide as int, 1024, unit as int);
        lemma_div_is_ordered(wide as int, (0xffff_ffff_ffff_ffff * 10 + 0xffff_ffff_ffff_ffff) as int, 1024);
    }
    let tenths = tenths_wide as u64;
    let mut s = u64_to_string(tenths / 10);
    push_char(&mut s, '.');
    let frac = tenths % 10;
    push_char(&mut s, crate::text::digit_char_of(frac));
    s
}

/// A byte count in human-readable form.
pub fn format_file_size(bytes: u64) -> (r: String)
    ensures
        r@ == file_size_text(bytes as nat),
{
    if bytes < KB {
        let mut s = u64_to_string(bytes);
        s.append(" B");
        s
    } else if bytes < MB {
        let mut s = scaled_string(bytes, KB);
        s.append(" KB");
        s
    } else if bytes < GB {
        let mut s = scaled_string(bytes, MB);
        s.append(" MB");
        s
    } else {
        let mut s = scaled_string(bytes, GB);
        s.append(" GB");
        s
    }
}

} // verus!
