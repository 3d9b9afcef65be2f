//! Trimming of raw setting values.

use crate::text::{opt_view, trim_nonempty as trim_nonempty_spec, trim_nonempty_str, trim_opt as trim_opt_spec, trim_opt_str, trim_owned_str};
use vstd::prelude::*;

verus! {

/// The trimmed text, unless it is empty.
pub fn trim_nonempty(s: &str) -> (r: Option<String>)
    ensures
        opt_view(r) == trim_nonempty_spec(s@),
{
    trim_nonempty_str(s)
}

/// `trim_nonempty` of an optional string.
pub fn trim_opt(s: Option<&str>) -> (r: Option<String>)
    ensures
        opt_view(r) == trim_opt_spec(match s {
            Some(v) => Some(v@),
            None => None,
        }),
{
    trim_opt_str(s)
}

/// `trim_nonempty` of an optional owned string.
pub fn trim_owned(s: Option<String>) -> (r: Option<String>)
    ensures
        opt_view(r) == trim_opt_spec(opt_view(s)),
{
    trim_owned_str(&s)
}

/// `trim_nonempty` of an optional string, owned.
pub fn trim_to_string(s: Option<&str>) -> (r: Option<String>)
    ensures
        opt_view(r) == trim_opt_spec(match s {
            Some(v) => Some(v@),
            None => None,
        }),
{
    trim_opt_str(s)
}

} // verus!
