//! JSON texts that the store writes: a provenance in the externally tagged
//! form in which it is persisted, and the body of a request for embeddings.

use crate::hex::{digit_char, hex_digit};
use crate::provenance::{Provenance, ProvenanceView};
use vstd::prelude::*;

verus! {

broadcast use vstd::string::group_string_axioms;

/// How one character is written inside a JSON string: the quotation mark,
/// the reverse solidus and the control characters are escaped, the common
/// control characters by their short forms and the others by `\u00` and two
/// lower-case hexadecimal digits; every other character stands for itself.
pub open spec fn escape_char(c: char) -> Seq<char> {
    if c == '"' {
        seq!['\\', '"']
    } else if c == '\\' {
        seq!['\\', '\\']
    } else if c == '\u{08}' {
        seq!['\\', 'b']
    } else if c == '\u{0C}' {
        seq!['\\', 'f']
    } else if c == '\n' {
        seq!['\\', 'n']
    } else if c == '\r' {
        seq!['\\', 'r']
    } else if c == '\t' {
        seq!['\\', 't']
    } else if (c as u32) < 0x20 {
        seq!['\\', 'u', '0', '0', hex_digit(c as u32 as int / 16), hex_digit(c as u32 as int % 16)]
    } else {
        seq![c]
    }
}

/// The characters of `text`, each written as inside a JSON string.
pub open spec fn escaped(text: Seq<char>) -> Seq<char>
    decreases text.len(),
{
    if text.len() == 0 {
        Seq::empty()
    } else {
        escaped(text.drop_last()) + escape_char(text.last())
    }
}

/// Appends `c` to `out`, written as inside a JSON string.
fn push_escaped_char(out: &mut String, c: char)
    ensures
        final(out)@ == old(out)@ + escape_char(c),
{
    let code: u32 = c as u32;
    if c == '"' {
        out.push('\\');
        out.push('"');
    } else if c == '\\' {
        out.push('\\');
        out.push('\\');
    } else if c == '\u{08}' {
        out.push('\\');
        out.push('b');
    } else if c == '\u{0C}' {
        out.push('\\');
        out.push('f');
    } else if c == '\n' {
        out.push('\\');
        out.push('n');
    } else if c == '\r' {
        out.push('\\');
        out.push('r');
    } else if c == '\t' {
        out.push('\\');
        out.push('t');
    } else if code < 0x20 {
        out.push('\\');
        out.push('u');
        out.push('0');
        out.push('0');
        out.push(digit_char(code / 16));
        out.push(digit_char(code % 16));
    } else {
        out.push(c);
    }
    assert(out@ =~= old(out)@ + escape_char(c));
}

/// Appends `text` to `out`, written as inside a JSON string.
fn push_escaped(out: &mut String, text: &str)
    ensures
        final(out)@ == old(out)@ + escaped(text@),
{
    let ghost start = out@;
    for c in iter: text.chars()
        invariant
            iter.seq() == text@,
            out@ == start + escaped(text@.take(iter.index())),
    {
        proof {
            let done = text@.take(iter.index());
            let next = text@.take(iter.index() + 1);
            assert(next.drop_last() =~= done);
            assert(next.last() == c);
        }
        push_escaped_char(out, c);
    }
    assert(text@.take(text@.len() as int) =~= text@);
}

/// The JSON string that holds `text`: the escaped characters between
/// quotation marks.
pub open spec fn json_string(text: Seq<char>) -> Seq<char> {
    seq!['"'] + escaped(text) + seq!['"']
}

/// The JSON text of a provenance. A variant without fields is the string of
/// its tag; a variant with fields is an object whose one key is the tag and
/// whose value is the object of the fields.
pub open spec fn provenance_json(p: ProvenanceView) -> Seq<char> {
    match p {
        ProvenanceView::UserStated => "\"UserStated\""@,
        ProvenanceView::WebSearch { url, query } => "{\"WebSearch\":{\"url\":"@ + json_string(url)
            + ",\"query\":"@ + json_string(query) + "}}"@,
        ProvenanceView::FileContent { path } => "{\"FileContent\":{\"path\":"@ + json_string(path)
            + "}}"@,
        ProvenanceView::HeartbeatDiscovery { task } => "{\"HeartbeatDiscovery\":{\"task\":"@
            + json_string(task) + "}}"@,
        ProvenanceView::Unknown => "\"Unknown\""@,
    }
}

/// Appends the JSON string that holds `text` to `out`.
pub fn push_json_string(out: &mut String, text: &str)
    ensures
        final(out)@ == old(out)@ + json_string(text@),
{
    out.push('"');
    push_escaped(out, text);
    out.push('"');
    assert(out@ =~= old(out)@ + json_string(text@));
}

/// Renders a provenance in the form in which it is persisted.
pub fn provenance_to_json(provenance: &Provenance) -> (json: String)
    ensures
        json@ == provenance_json(provenance@),
{
    match provenance {
        Provenance::UserStated => "\"UserStated\"".to_owned(),
        Provenance::WebSearch { url, query } => {
            let mut json = "{\"WebSearch\":{\"url\":".to_owned();
            push_json_string(&mut json, url.as_str());
            json.append(",\"query\":");
            push_json_string(&mut json, query.as_str());
            json.append("}}");
            json
        },
        Provenance::FileContent { path } => {
            let mut json = "{\"FileContent\":{\"path\":".to_owned();
            push_json_string(&mut json, path.as_str());
            json.append("}}");
            json
        },
        Provenance::HeartbeatDiscovery { task } => {
            let mut json = "{\"HeartbeatDiscovery\":{\"task\":".to_owned();
            push_json_string(&mut json, task.as_str());
            json.append("}}");
            json
        },
        Provenance::Unknown => "\"Unknown\"".to_owned(),
    }
}

} // verus!
