//! Small helpers: a time span as text.

use vstd::prelude::*;
use vstd::string::StringExecFns;
use crate::mods::decimal::{decimal_text, push_decimal};

verus! {

/// The text of a time span of `secs` whole seconds: hours, minutes below
/// sixty and seconds below sixty, in decimal, between brackets and with
/// colons between them.
pub open spec fn hms_text(secs: nat) -> Seq<char> {
    "["@ + decimal_text(secs / 3600) + ":"@ + decimal_text((secs % 3600) / 60) + ":"@
        + decimal_text(secs % 60) + "]"@
}

/// The text of a time span of `secs` whole seconds, as `[h:m:s]`.
pub fn s_to_hms(secs: u64) -> (r: String)
    ensures
        r@ == hms_text(secs as nat),
{
    let h: u64 = secs / 3600;
    let m: u64 = (secs - h * 3600) / 60;
    let s: u64 = (secs - h * 3600) - m * 60;
    assert(m == (secs % 3600) / 60 && s == secs % 60) by (nonlinear_arith)
        requires
            h == secs / 3600,
            m == (secs - h * 3600) / 60,
            s == (secs - h * 3600) - m * 60,
    ;
    let mut out = String::new();
    out.append("[");
    push_decimal(&mut out, h);
    out.append(":");
    push_decimal(&mut out, m);
    out.append(":");
    push_decimal(&mut out, s);
    out.append("]");
    assert(out@ =~= hms_text(secs as nat));
    out
}

} // verus!
