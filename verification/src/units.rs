//! The measurement system a diagram is drawn in, parsed from its stored
//! spelling. The spellings `"metric"` and `"imperial"` are recognized in any
//! ASCII case; every other string is rejected.

use vstd::prelude::*;

use crate::text::lower_seq;
use crate::text::eq_lower;

verus! {

/// Measurement system used for all lengths in a rendering configuration.
#[derive(Clone, Copy, Debug, PartialEq, Eq, Structural)]
pub enum Units {
    Metric,
    Imperial,
}

/// The units named by `s`: case folding `s` must spell `"metric"` or
/// `"imperial"` exactly; any other string names none.
pub open spec fn units_of(s: Seq<char>) -> Option<Units> {
    if lower_seq(s) == "metric"@ {
        Some(Units::Metric)
    } else if lower_seq(s) == "imperial"@ {
        Some(Units::Imperial)
    } else {
        None
    }
}

/// Parses a stored units string, ignoring ASCII case.
pub fn parse_units(s: &str) -> (r: Option<Units>)
    ensures
        r == units_of(s@),
{
    if eq_lower(s, "metric") {
        Some(Units::Metric)
    } else if eq_lower(s, "imperial") {
        Some(Units::Imperial)
    } else {
        None
    }
}

} // verus!
