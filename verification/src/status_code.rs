//! Status-code markers selected by the derive attribute `status = "..."`.

use vstd::prelude::*;

verus! {

/// The closed set of status kinds that the `status` attribute may select.
#[derive(Clone, Copy, PartialEq, Eq, Structural, Debug)]
pub enum StatusKind {
    Okay,
    Created,
}

/// The numeric HTTP status code for a kind.
pub open spec fn spec_status_code(kind: StatusKind) -> u16 {
    match kind {
        StatusKind::Okay => 200,
        StatusKind::Created => 201,
    }
}

/// The HTTP status code that a kind stands for: 200 or 201.
pub fn status_code_of(kind: StatusKind) -> (r: u16)
    ensures
        r == spec_status_code(kind),
{
    match kind {
        StatusKind::Okay => 200,
        StatusKind::Created => 201,
    }
}

/// The kind that a `status = "..."` attribute value selects. A value outside
/// the supported set selects nothing, and the derive ignores it.
pub open spec fn spec_status_kind(s: Seq<char>) -> Option<StatusKind> {
    if s == "OK"@ || s == "200"@ {
        Some(StatusKind::Okay)
    } else if s == "CREATED"@ || s == "201"@ {
        Some(StatusKind::Created)
    } else {
        None
    }
}

/// Map a `status` attribute value to its kind.
pub fn status_kind_of_value(v: &String) -> (r: Option<StatusKind>)
    ensures
        r == spec_status_kind(v@),
{
    if crate::strutil::str_is(v, "OK") || crate::strutil::str_is(v, "200") {
        Some(StatusKind::Okay)
    } else if crate::strutil::str_is(v, "CREATED") || crate::strutil::str_is(v, "201") {
        Some(StatusKind::Created)
    } else {
        None
    }
}

} // verus!
