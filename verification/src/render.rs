//! Debug renderings of settings records, with tokens shown as `<redacted>`.

use crate::config::partial::secret_view;
use crate::config::token::SecretString;
use crate::text::opt_view;
use vstd::prelude::*;
use vstd::string::*;

verus! {

/// What std's `Debug` for `str` writes for a text: the text in double
/// quotes, its quotes, backslashes and non-printing characters escaped.
pub uninterp spec fn debug_str(s: Seq<char>) -> Seq<char>;

/// A text as a debug rendering shows it.
pub open spec fn quoted(v: Seq<char>) -> Seq<char> {
    debug_str(v)
}

/// `Some("…")` or `None`.
pub open spec fn opt_text(o: Option<Seq<char>>) -> Seq<char> {
    match o {
        Some(v) => "Some("@ + quoted(v) + ")"@,
        None => "None"@,
    }
}

/// `Some(<redacted>)` or `None`: a token's text is never shown.
pub open spec fn secret_text(o: Option<Seq<char>>) -> Seq<char> {
    match o {
        Some(_) => "Some("@ + "<redacted>"@ + ")"@,
        None => "None"@,
    }
}

/// `name: text` entries joined by `, `.
pub open spec fn joined(fields: Seq<(Seq<char>, Seq<char>)>) -> Seq<char>
    decreases fields.len(),
{
    if fields.len() == 0 {
        Seq::empty()
    } else if fields.len() == 1 {
        fields[0].0 + ": "@ + fields[0].1
    } else {
        joined(fields.drop_last()) + ", "@ + fields.last().0 + ": "@ + fields.last().1
    }
}

/// `Name { a: x, b: y }`.
pub open spec fn record_text(name: Seq<char>, fields: Seq<(Seq<char>, Seq<char>)>) -> Seq<char> {
    name + " { "@ + joined(fields) + " }"@
}

/// Quoted items joined by `, `.
pub open spec fn items_joined(items: Seq<Seq<char>>) -> Seq<char>
    decreases items.len(),
{
    if items.len() == 0 {
        Seq::empty()
    } else if items.len() == 1 {
        quoted(items[0])
    } else {
        items_joined(items.drop_last()) + ", "@ + quoted(items.last())
    }
}

/// `["a", "b"]`.
pub open spec fn list_text(items: Seq<Seq<char>>) -> Seq<char> {
    "["@ + items_joined(items) + "]"@
}

pub open spec fn fields_view(v: Seq<(String, String)>) -> Seq<(Seq<char>, Seq<char>)> {
    v.map_values(|f: (String, String)| (f.0@, f.1@))
}

/// `format!("{:?}", v)`: std's debug rendering of a text. The contract
/// names the result and says nothing of the escaping rules themselves.
#[verifier::external_body]
fn debug_str_of(v: &str) -> (r: String)
    ensures
        r@ == debug_str(v@),
{
    format!("{:?}", v)
}

pub fn quote(v: &str) -> (r: String)
    ensures
        r@ == quoted(v@),
{
    debug_str_of(v)
}

pub fn opt_text_of(o: &Option<String>) -> (r: String)
    ensures
        r@ == opt_text(opt_view(*o)),
{
    match o {
        Some(v) => String::from_str("Some(").concat(quote(v.as_str()).as_str()).concat(")"),
        None => String::from_str("None"),
    }
}

pub fn secret_text_of(o: &Option<SecretString>) -> (r: String)
    ensures
        r@ == secret_text(secret_view(*o)),
{
    match o {
        Some(t) => String::from_str("Some(").concat(t.debug_text()).concat(")"),
        None => String::from_str("None"),
    }
}

/// One entry of a record.
pub fn field(name: &str, text: String) -> (r: (String, String))
    ensures
        r.0@ == name@,
        r.1@ == text@,
{
    (String::from_str(name), text)
}

pub fn record_text_of(name: &str, fields: &Vec<(String, String)>) -> (r: String)
    ensures
        r@ == record_text(name@, fields_view(fields@)),
{
    let ghost fv = fields_view(fields@);
    let mut out = String::new();
    let mut i: usize = 0;
    assert(fv.subrange(0, 0) =~= Seq::<(Seq<char>, Seq<char>)>::empty());
    while i < fields.len()
        invariant
            i <= fields@.len(),
            fv == fields_view(fields@),
            out@ == joined(fv.subrange(0, i as int)),
        decreases fields@.len() - i,
    {
        let ghost pre = fv.subrange(0, i as int);
        let ghost nxt = fv.subrange(0, i + 1);
        assert(nxt.drop_last() =~= pre);
        assert(nxt.last() == fv[i as int]);
        if i > 0 {
            out.append(", ");
        }
        out.append(fields[i].0.as_str());
        out.append(": ");
        out.append(fields[i].1.as_str());
        i = i + 1;
        assert(out@ =~= joined(nxt));
    }
    assert(fv.subrange(0, fields@.len() as int) =~= fv);
    String::from_str(name).concat(" { ").concat(out.as_str()).concat(" }")
}

pub fn list_text_of(items: &Vec<String>) -> (r: String)
    ensures
        r@ == list_text(items@.map_values(|s: String| s@)),
{
    let ghost iv = items@.map_values(|s: String| s@);
    let mut out = String::new();
    let mut i: usize = 0;
    assert(iv.subrange(0, 0) =~= Seq::<Seq<char>>::empty());
    while i < items.len()
        invariant
            i <= items@.len(),
            iv == items@.map_values(|s: String| s@),
            out@ == items_joined(iv.subrange(0, i as int)),
        decreases items@.len() - i,
    {
        let ghost pre = iv.subrange(0, i as int);
        let ghost nxt = iv.subrange(0, i + 1);
        assert(nxt.drop_last() =~= pre);
        assert(nxt.last() == iv[i as int]);
        if i > 0 {
            out.append(", ");
        }
        let q = quote(items[i].as_str());
        out.append(q.as_str());
        i = i + 1;
        assert(out@ =~= items_joined(nxt));
    }
    assert(iv.subrange(0, items@.len() as int) =~= iv);
    String::from_str("[").concat(out.as_str()).concat("]")
}

} // verus!
