//! The text of log lines: the filter for a log level, level labels, and
//! the body of an event line.

use crate::text::{opt_view, str_eq, to_ascii_lower, ascii_lower_seq};
use vstd::prelude::*;
use vstd::string::*;

verus! {

/// A log level of the configuration, lower case; anything else is `info`.
pub open spec fn normalize_level_spec(level: Seq<char>) -> Seq<char> {
    let l = ascii_lower_seq(level);
    if l == "error"@ || l == "warn"@ || l == "info"@ || l == "debug"@ || l == "trace"@ {
        l
    } else {
        "info"@
    }
}

pub fn normalize_level(level: &str) -> (r: String)
    ensures
        r@ == normalize_level_spec(level@),
{
    let l = to_ascii_lower(level);
    if str_eq(l.as_str(), "error") || str_eq(l.as_str(), "warn") || str_eq(l.as_str(), "info") || str_eq(
        l.as_str(),
        "debug",
    ) || str_eq(l.as_str(), "trace") {
        l
    } else {
        String::from_str("info")
    }
}

/// The filter used when `RUST_LOG` is not set: this program's crates at the
/// level, noisy dependencies at `warn`.
pub open spec fn default_filter_spec(level: Seq<char>) -> Seq<char> {
    let l = normalize_level_spec(level);
    "discord_keep_alive="@ + l + ",dka_gateway="@ + l + ",dka_runtime="@ + l
        + ",tokio=warn,tokio_tungstenite=warn,tungstenite=warn,rustls=warn"@
}

pub fn default_filter(level: &str) -> (r: String)
    ensures
        r@ == default_filter_spec(level@),
{
    let l = normalize_level(level);
    String::from_str("discord_keep_alive=").concat(l.as_str()).concat(",dka_gateway=").concat(l.as_str()).concat(
        ",dka_runtime=",
    ).concat(l.as_str()).concat(",tokio=warn,tokio_tungstenite=warn,tungstenite=warn,rustls=warn")
}

/// A debug rendering without the quotes around a string.
pub open spec fn strip_debug_string_spec(v: Seq<char>) -> Seq<char> {
    if v.len() >= 2 && v[0] == '"' && v[v.len() - 1] == '"' {
        v.subrange(1, v.len() - 1)
    } else {
        v
    }
}

pub fn strip_debug_string(value: String) -> (r: String)
    ensures
        r@ == strip_debug_string_spec(value@),
{
    let n = value.unicode_len();
    if n >= 2 && value.get_char(0) == '"' && value.get_char(n - 1) == '"' {
        String::from_str(value.as_str().substring_char(1, n - 1))
    } else {
        value
    }
}

/// The level of a log event.
#[derive(Debug, Clone, Copy, PartialEq, Eq, Structural)]
pub enum LogLevel {
    Error,
    Warn,
    Info,
    Debug,
    Trace,
}

/// The label of a level, five columns wide; on a terminal, colored.
pub open spec fn level_label_spec(level: LogLevel, ansi: bool) -> Seq<char> {
    let (color, label) = match level {
        LogLevel::Error => ("\x1b[31m"@, "ERROR"@),
        LogLevel::Warn => ("\x1b[33m"@, " WARN"@),
        LogLevel::Info => ("\x1b[32m"@, " INFO"@),
        LogLevel::Debug => ("\x1b[34m"@, "DEBUG"@),
        LogLevel::Trace => ("\x1b[35m"@, "TRACE"@),
    };
    if ansi {
        color + label + "\x1b[0m"@
    } else {
        label
    }
}

pub fn level_label(level: LogLevel, ansi: bool) -> (r: String)
    ensures
        r@ == level_label_spec(level, ansi),
{
    let (color, label) = match level {
        LogLevel::Error => ("\x1b[31m", "ERROR"),
        LogLevel::Warn => ("\x1b[33m", " WARN"),
        LogLevel::Info => ("\x1b[32m", " INFO"),
        LogLevel::Debug => ("\x1b[34m", "DEBUG"),
        LogLevel::Trace => ("\x1b[35m", "TRACE"),
    };
    if ansi {
        String::from_str(color).concat(label).concat("\x1b[0m")
    } else {
        String::from_str(label)
    }
}

/// The fields of a log event: its message, the account it concerns, and
/// the other fields in order.
pub struct EventFields {
    pub message: String,
    pub account: Option<String>,
    pub fields: Vec<(String, String)>,
}

pub open spec fn pairs_of(v: Seq<(String, String)>) -> Seq<(Seq<char>, Seq<char>)> {
    v.map_values(|p: (String, String)| (p.0@, p.1@))
}

impl EventFields {
    pub fn new() -> (r: EventFields)
        ensures
            r.message@.len() == 0,
            r.account is None,
            r.fields@.len() == 0,
    {
        EventFields { message: String::new(), account: None, fields: Vec::new() }
    }

    /// Records one field: `message` and `account` by name, any other field
    /// appended.
    pub fn record(&mut self, name: &str, value: String)
        ensures
            name@ == "message"@ ==> final(self).message@ == value@ && final(self).account == old(self).account
                && final(self).fields@ == old(self).fields@,
            name@ == "account"@ ==> opt_view(final(self).account) == Some(value@) && final(self).message
                == old(self).message && final(self).fields@ == old(self).fields@,
            name@ != "message"@ && name@ != "account"@ ==> final(self).message == old(self).message
                && final(self).account == old(self).account && pairs_of(final(self).fields@) == pairs_of(
                old(self).fields@,
            ).push((name@, value@)),
    {
        proof {
            reveal_strlit("message");
            reveal_strlit("account");
            assert("account"@[0] != "message"@[0]);
        }
        if str_eq(name, "message") {
            self.message = value;
        } else if str_eq(name, "account") {
            self.account = Some(value);
        } else {
            let ghost f0 = self.fields@;
            self.fields.push((String::from_str(name), value));
            assert(pairs_of(self.fields@) =~= pairs_of(f0).push((name@, value@)));
        }
    }
}

/// ` key=value` for each field.
pub open spec fn fields_text(f: Seq<(Seq<char>, Seq<char>)>) -> Seq<char>
    decreases f.len(),
{
    if f.len() == 0 {
        Seq::empty()
    } else {
        fields_text(f.drop_last()) + " "@ + f.last().0 + "="@ + f.last().1
    }
}

/// The body of an event line: `account: ` when one is known, the message,
/// then ` key=value` for each other field.
pub open spec fn event_body_spec(account: Option<Seq<char>>, message: Seq<char>, f: Seq<(Seq<char>, Seq<char>)>) -> Seq<char> {
    let prefix = match account {
        Some(a) => a + ": "@,
        None => Seq::empty(),
    };
    prefix + message + fields_text(f)
}

pub fn event_body(account: Option<&str>, message: &str, fields: &Vec<(String, String)>) -> (r: String)
    ensures
        r@ == event_body_spec(crate::json::opt_ref_view(account), message@, pairs_of(fields@)),
{
    let mut out = match account {
        Some(a) => String::from_str(a).concat(": "),
        None => String::new(),
    };
    out.append(message);
    let ghost base = out@;
    let ghost fv = pairs_of(fields@);
    let mut i: usize = 0;
    assert(fv.subrange(0, 0) =~= Seq::<(Seq<char>, Seq<char>)>::empty());
    while i < fields.len()
        invariant
            i <= fields@.len(),
            fv == pairs_of(fields@),
            out@ == base + fields_text(fv.subrange(0, i as int)),
        decreases fields@.len() - i,
    {
        let ghost nxt = fv.subrange(0, i + 1);
        assert(nxt.drop_last() =~= fv.subrange(0, i as int));
        assert(nxt.last() == fv[i as int]);
        out.append(" ");
        out.append(fields[i].0.as_str());
        out.append("=");
        out.append(fields[i].1.as_str());
        i = i + 1;
        assert(out@ =~= base + fields_text(nxt));
    }
    assert(fv.subrange(0, fields@.len() as int) =~= fv);
    out
}

} // verus!
