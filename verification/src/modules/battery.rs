//! The battery charge, from the kernel's `capacity` file.
use vstd::prelude::*;
use crate::text::{
    is_ws, law_parse_i8_reads_decimal, law_trim_strips_surrounding_space,
    lemma_signed_decimal_ends, parse_i8, parse_i8_text, signed_decimal, trim, trim_str,
};

verus! {

/// The charge that `contents` (the text of the `capacity` file) reports: the number it
/// holds, surrounding white space ignored; 100 when it holds no number in `i8`'s range.
pub open spec fn battery_percent(contents: Seq<char>) -> i8 {
    match parse_i8_text(trim(contents)) {
        Some(v) => v,
        None => 100,
    }
}

/// The battery charge in percent from the text of the `capacity` file (empty when the
/// file could not be read).
pub fn get_battery_percent(contents: &str) -> (r: i8)
    ensures
        r == battery_percent(contents@),
{
    let t = trim_str(contents);
    match parse_i8(t.as_str()) {
        Some(v) => v,
        None => 100,
    }
}

/// The charge is the number that the file holds: any `i8` value written in decimal, with
/// any white space around it (such as the line break that ends the kernel's file), is
/// read as that value.
pub proof fn law_battery_reads_written_number(p: Seq<char>, v: i8, q: Seq<char>)
    requires
        forall|k: int| 0 <= k < p.len() ==> is_ws(#[trigger] p[k]),
        forall|k: int| 0 <= k < q.len() ==> is_ws(#[trigger] q[k]),
    ensures
        battery_percent(p + signed_decimal(v as int) + q) == v,
{
    lemma_signed_decimal_ends(v as int);
    law_trim_strips_surrounding_space(p, signed_decimal(v as int), q);
    law_parse_i8_reads_decimal(v as int);
}

/// A number outside `i8`'s range, written in decimal with any white space around it, is
/// no charge that can be read: the charge is then 100.
pub proof fn law_battery_out_of_range_is_full(p: Seq<char>, n: int, q: Seq<char>)
    requires
        forall|k: int| 0 <= k < p.len() ==> is_ws(#[trigger] p[k]),
        forall|k: int| 0 <= k < q.len() ==> is_ws(#[trigger] q[k]),
        !(-128 <= n <= 127),
    ensures
        battery_percent(p + signed_decimal(n) + q) == 100,
{
    lemma_signed_decimal_ends(n);
    law_trim_strips_surrounding_space(p, signed_decimal(n), q);
    law_parse_i8_reads_decimal(n);
}

/// Contents that are only white space (an empty or unreadable file among them) give 100.
pub proof fn law_blank_battery_file_is_full(p: Seq<char>)
    requires
        forall|k: int| 0 <= k < p.len() ==> is_ws(#[trigger] p[k]),
    ensures
        battery_percent(p) == 100,
{
    let e = Seq::<char>::empty();
    law_trim_strips_surrounding_space(p, e, e);
    assert(p + e + e =~= p);
}

} // verus!
