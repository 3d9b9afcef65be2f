//! Account and activity ids.

use crate::config::error::ConfigError;
use crate::text::{chars, is_alnum_char, is_ascii_alnum, str_eq};
use vstd::prelude::*;
use vstd::string::*;

verus! {

/// The id of the account made of un-numbered (flat) settings.
pub const ACCOUNT_FLAT: &'static str = "__flat__";

/// The id of the activity made of un-numbered (singular) settings.
pub const ACTIVITY_SINGULAR: &'static str = "__singular__";

pub open spec fn flat_id() -> Seq<char> {
    "__flat__"@
}

pub open spec fn singular_id() -> Seq<char> {
    "__singular__"@
}

/// Bytes of a character in UTF-8.
pub open spec fn utf8_width(c: char) -> nat {
    if (c as u32) < 0x80 {
        1
    } else if (c as u32) < 0x800 {
        2
    } else if (c as u32) < 0x10000 {
        3
    } else {
        4
    }
}

/// Bytes of a text in UTF-8.
pub open spec fn utf8_len(s: Seq<char>) -> nat
    decreases s.len(),
{
    if s.len() == 0 {
        0
    } else {
        utf8_len(s.drop_last()) + utf8_width(s.last())
    }
}

/// `id '<raw>'<tail>`.
pub open spec fn id_msg(raw: Seq<char>, tail: Seq<char>) -> Seq<char> {
    "id '"@ + raw + "'"@ + tail
}

/// Why `raw` is not a user id, or `None` when it is one: 1 to 64 bytes,
/// starting with an ASCII letter or digit, then ASCII letters, digits and
/// `-`, not ending with `-`, and not a reserved id.
pub open spec fn user_id_error(raw: Seq<char>) -> Option<Seq<char>> {
    if raw.len() == 0 {
        Some("id must not be empty"@)
    } else if raw == flat_id() || raw == singular_id() {
        Some("reserved id '"@ + raw + "'"@)
    } else if utf8_len(raw) > 64 {
        Some(id_msg(raw, " exceeds 64 characters"@))
    } else if !is_ascii_alnum(raw[0]) {
        Some(id_msg(raw, " must start with an alphanumeric character"@))
    } else if exists|i: int| 1 <= i < raw.len() && !(is_ascii_alnum(#[trigger] raw[i]) || raw[i] == '-') {
        Some(id_msg(raw, " may only contain alphanumeric characters and '-'"@))
    } else if raw.last() == '-' {
        Some(id_msg(raw, " must not end with '-'"@))
    } else {
        None
    }
}

/// Byte length of a text in UTF-8.
fn utf8_length(v: &Vec<char>) -> (n: usize)
    ensures
        n as nat == utf8_len(v@) || (n == usize::MAX && utf8_len(v@) >= usize::MAX),
{
    let mut n: usize = 0;
    let mut i: usize = 0;
    while i < v.len()
        invariant
            i <= v@.len(),
            n as nat == utf8_len(v@.subrange(0, i as int)) || (n == usize::MAX && utf8_len(v@.subrange(0, i as int)) >= usize::MAX),
        decreases v@.len() - i,
    {
        let c = v[i] as u32;
        let w: usize = if c < 0x80 {
            1
        } else if c < 0x800 {
            2
        } else if c < 0x10000 {
            3
        } else {
            4
        };
        assert(v@.subrange(0, i + 1).drop_last() =~= v@.subrange(0, i as int));
        assert(v@.subrange(0, i + 1).last() == v@[i as int]);
        if n == usize::MAX || n > usize::MAX - w {
            n = usize::MAX;
        } else {
            n = n + w;
        }
        i = i + 1;
    }
    assert(v@.subrange(0, v@.len() as int) =~= v@);
    n
}

fn id_error(raw: &str, tail: &str) -> (r: ConfigError)
    ensures
        r == ConfigError::InvalidId(r->InvalidId_0),
        r->InvalidId_0@ == id_msg(raw@, tail@),
{
    ConfigError::InvalidId(String::from_str("id '").concat(raw).concat("'").concat(tail))
}

/// A user-given account or activity id, checked.
pub fn parse_user_id(raw: &str) -> (r: Result<String, ConfigError>)
    ensures
        match r {
            Ok(s) => user_id_error(raw@) is None && s@ == raw@,
            Err(e) => e is InvalidId && user_id_error(raw@) == Some(e->InvalidId_0@),
        },
{
    let v = chars(raw);
    if v.len() == 0 {
        return Err(ConfigError::InvalidId(String::from_str("id must not be empty")));
    }
    if str_eq(raw, ACCOUNT_FLAT) || str_eq(raw, ACTIVITY_SINGULAR) {
        return Err(ConfigError::InvalidId(String::from_str("reserved id '").concat(raw).concat("'")));
    }
    if utf8_length(&v) > 64 {
        return Err(id_error(raw, " exceeds 64 characters"));
    }
    if !is_alnum_char(v[0]) {
        return Err(id_error(raw, " must start with an alphanumeric character"));
    }
    let mut i: usize = 1;
    while i < v.len()
        invariant
            1 <= i <= v@.len(),
            v@ == raw@,
            raw@ != flat_id() && raw@ != singular_id(),
            utf8_len(raw@) <= 64,
            is_ascii_alnum(raw@[0]),
            forall|j: int| 1 <= j < i ==> is_ascii_alnum(#[trigger] raw@[j]) || raw@[j] == '-',
        decreases v@.len() - i,
    {
        if !(is_alnum_char(v[i]) || v[i] == '-') {
            assert(!(is_ascii_alnum(raw@[i as int]) || raw@[i as int] == '-'));
            return Err(id_error(raw, " may only contain alphanumeric characters and '-'"));
        }
        i = i + 1;
    }
    if v[v.len() - 1] == '-' {
        return Err(id_error(raw, " must not end with '-'"));
    }
    Ok(String::from_str(raw))
}

} // verus!
