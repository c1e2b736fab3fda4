//! The records that stand for descriptors that cannot be written out.
//!
//! Descriptors are written one to a line. Where one cannot be read or written, a
//! JSON object in its place says why.

use crate::text::{concat3, digit, hex_value, lemma_digit_reads_back, optional_str};
use vstd::prelude::*;
use vstd::string::*;

verus! {

/// A character as it stands in a JSON string.
pub open spec fn escaped(c: char) -> Seq<char> {
    if c == '"' {
        seq!['\\', '"']
    } else if c == '\\' {
        seq!['\\', '\\']
    } else if c as u32 == 0x8 {
        seq!['\\', 'b']
    } else if c as u32 == 0x9 {
        seq!['\\', 't']
    } else if c as u32 == 0xa {
        seq!['\\', 'n']
    } else if c as u32 == 0xc {
        seq!['\\', 'f']
    } else if c as u32 == 0xd {
        seq!['\\', 'r']
    } else if (c as u32) < 0x20 {
        seq!['\\', 'u', '0', '0', digit(c as int / 16), digit(c as int % 16)]
    } else {
        seq![c]
    }
}

/// The characters of a text as they stand in a JSON string.
pub open spec fn escaped_text(text: Seq<char>) -> Seq<char>
    decreases text.len(),
{
    if text.len() == 0 {
        Seq::empty()
    } else {
        escaped_text(text.drop_last()) + escaped(text.last())
    }
}

/// A text as a JSON string.
pub open spec fn json_string_of(text: Seq<char>) -> Seq<char> {
    seq!['"'] + escaped_text(text) + seq!['"']
}

/// Calls `to_string` on a `serde_json::Value::String`: the text between quotes,
/// with quotes, backslashes and the characters below the space escaped.
#[verifier::external_body]
fn json_string(text: &str) -> (json: String)
    ensures
        json@ == json_string_of(text@),
{
    serde_json::Value::String(text.to_owned()).to_string()
}

/// A JSON object with one to three texts. The keys are in alphabetical order.
pub open spec fn record_of(
    error: Seq<char>,
    guid: Option<Seq<char>>,
    message: Option<Seq<char>>,
) -> Seq<char> {
    "{\"$error\":"@ + json_string_of(error) + match guid {
        Some(guid) => ",\"$guid\":"@ + json_string_of(guid),
        None => Seq::empty(),
    } + match message {
        Some(message) => ",\"$message\":"@ + json_string_of(message),
        None => Seq::empty(),
    } + "}"@
}

/// A JSON object that says what went wrong.
fn error_record(error: &str, guid: Option<&str>, message: Option<&str>) -> (record: String)
    ensures
        record@ == record_of(error@, optional_str(guid), optional_str(message)),
{
    let mut record = "{\"$error\":".to_owned();
    record.append(json_string(error).as_str());
    if let Some(guid) = guid {
        record.append(",\"$guid\":");
        record.append(json_string(guid).as_str());
    }
    if let Some(message) = message {
        record.append(",\"$message\":");
        record.append(json_string(message).as_str());
    }
    record.append("}");
    proof {
        assert(record@ =~= record_of(error@, optional_str(guid), optional_str(message)));
    }
    record
}

/// What came of reading a descriptor to write it out.
pub enum Reading {
    /// The descriptor, written out.
    Written(String),
    /// The descriptor was read, but cannot be written out.
    Unwritable(String),
    /// There is no such descriptor.
    NotFound,
    /// The descriptor cannot be read.
    Unreadable(String),
}

/// The line that stands for a descriptor.
pub open spec fn line_of(guid: Seq<char>, reading: Reading) -> Seq<char> {
    match reading {
        Reading::Written(text) => text@,
        Reading::Unwritable(reason) => record_of(
            "SerializationError"@,
            Some(guid),
            Some(reason@),
        ),
        Reading::NotFound => record_of("NotFound"@, Some(guid), None),
        Reading::Unreadable(reason) => record_of("ReadError"@, Some(guid), Some(reason@)),
    }
}

/// The line that stands for a descriptor.
pub fn descriptor_line(guid: &str, reading: Reading) -> (line: String)
    ensures
        line@ == line_of(guid@, reading),
{
    match reading {
        Reading::Written(text) => text,
        Reading::Unwritable(reason) => error_record(
            "SerializationError",
            Some(guid),
            Some(reason.as_str()),
        ),
        Reading::NotFound => error_record("NotFound", Some(guid), None),
        Reading::Unreadable(reason) => error_record("ReadError", Some(guid), Some(reason.as_str())),
    }
}

/// The line that stands for an archive that cannot be opened.
pub open spec fn unopened_line_of(path: Seq<char>, reason: Seq<char>) -> Seq<char> {
    record_of("KFCReaderError"@, None, Some("Failed to open "@ + path + ": "@ + reason))
}

/// The line that stands for an archive that cannot be opened.
pub fn unopened_line(path: &str, reason: &str) -> (line: String)
    ensures
        line@ == unopened_line_of(path@, reason@),
{
    let mut message = concat3("Failed to open ", path, ": ");
    message.append(reason);
    error_record("KFCReaderError", None, Some(message.as_str()))
}

/// Whether a text lies on one line.
pub open spec fn on_one_line(text: Seq<char>) -> bool {
    forall|i: int| 0 <= i < text.len() ==> #[trigger] text[i] != '\n' && text[i] != '\r'
}

proof fn lemma_escaped_on_one_line(text: Seq<char>)
    ensures
        on_one_line(escaped_text(text)),
    decreases text.len(),
{
    if text.len() > 0 {
        lemma_escaped_on_one_line(text.drop_last());
        let c = text.last();
        assert(on_one_line(escaped(c)));
    }
}

/// A record lies on one line, whatever stands in it, so that what is written out
/// stays one descriptor to a line.
pub proof fn law_records_lie_on_one_line(
    error: Seq<char>,
    guid: Option<Seq<char>>,
    message: Option<Seq<char>>,
)
    ensures
        on_one_line(record_of(error, guid, message)),
{
    reveal_strlit("{\"$error\":");
    reveal_strlit(",\"$guid\":");
    reveal_strlit(",\"$message\":");
    reveal_strlit("}");
    lemma_escaped_on_one_line(error);
    match guid {
        Some(guid) => lemma_escaped_on_one_line(guid),
        None => {},
    }
    match message {
        Some(message) => lemma_escaped_on_one_line(message),
        None => {},
    }
}

/// What a reader of JSON makes of the inside of a string, if it is valid there: no quote
/// and no control character stands in it as it is, and a backslash starts one of the
/// forms that the format knows.
pub open spec fn read_escaped(json: Seq<char>) -> Option<Seq<char>>
    decreases json.len(),
{
    if json.len() == 0 {
        Some(Seq::empty())
    } else if json[0] != '\\' {
        if json[0] == '"' || (json[0] as u32) < 0x20 {
            None
        } else {
            after_char(json[0], read_escaped(json.skip(1)))
        }
    } else if json.len() >= 6 && json[1] == 'u' {
        let code = hex_value(json[2]) * 0x1000 + hex_value(json[3]) * 0x100 + hex_value(json[4])
            * 0x10 + hex_value(json[5]);
        after_char(code as char, read_escaped(json.skip(6)))
    } else if json.len() >= 2 {
        let rest = read_escaped(json.skip(2));
        if json[1] == '"' || json[1] == '\\' || json[1] == '/' {
            after_char(json[1], rest)
        } else if json[1] == 'b' {
            after_char(0x8int as char, rest)
        } else if json[1] == 't' {
            after_char(0x9int as char, rest)
        } else if json[1] == 'n' {
            after_char(0xaint as char, rest)
        } else if json[1] == 'f' {
            after_char(0xcint as char, rest)
        } else if json[1] == 'r' {
            after_char(0xdint as char, rest)
        } else {
            None
        }
    } else {
        None
    }
}

/// A character and what is read behind it, if that is valid.
pub open spec fn after_char(c: char, rest: Option<Seq<char>>) -> Option<Seq<char>> {
    match rest {
        Some(rest) => Some(seq![c] + rest),
        None => None,
    }
}

/// A text that is written as a JSON string is valid there, and reads back as the text.
pub proof fn law_strings_read_back(text: Seq<char>)
    ensures
        read_escaped(escaped_text(text)) == Some(text),
        json_string_of(text) == seq!['"'] + escaped_text(text) + seq!['"'],
    decreases text.len(),
{
    if text.len() > 0 {
        let first = text[0];
        let rest = text.drop_first();
        law_strings_read_back(rest);
        assert(text =~= seq![first] + rest);
        lemma_escaped_in_turn(seq![first], rest);
        lemma_escaped_single(first);
        lemma_reads_first(first, escaped_text(rest));
    } else {
        assert(escaped_text(text) =~= Seq::empty());
        assert(text =~= Seq::empty());
    }
}

proof fn lemma_escaped_single(c: char)
    ensures
        escaped_text(seq![c]) == escaped(c),
{
    reveal_with_fuel(escaped_text, 2);
    assert(seq![c].drop_last() =~= Seq::empty());
    assert(escaped_text(seq![c]) =~= escaped(c));
}

proof fn lemma_escaped_in_turn(a: Seq<char>, b: Seq<char>)
    ensures
        escaped_text(a + b) == escaped_text(a) + escaped_text(b),
    decreases b.len(),
{
    if b.len() == 0 {
        assert(a + b =~= a);
    } else {
        assert((a + b).drop_last() =~= a + b.drop_last());
        lemma_escaped_in_turn(a, b.drop_last());
        assert(escaped_text(a + b) =~= escaped_text(a) + escaped_text(b));
    }
}

proof fn lemma_reads_first(c: char, rest: Seq<char>)
    requires
        read_escaped(rest) is Some,
    ensures
        read_escaped(escaped(c) + rest) == Some(seq![c] + read_escaped(rest)->0),
{
    let json = escaped(c) + rest;
    assert(json.skip(escaped(c).len() as int) =~= rest);
    if (c as u32) < 0x20 {
        lemma_digit_reads_back(c as int / 16);
        lemma_digit_reads_back(c as int % 16);
    }
    assert(json[0] == escaped(c)[0]);
    if escaped(c).len() >= 2 {
        assert(json[1] == escaped(c)[1]);
    }
    if escaped(c).len() == 6 {
        assert(json[2] == '0');
        assert(json[3] == '0');
        assert(json[4] == digit(c as int / 16));
        assert(json[5] == digit(c as int % 16));
    }
}

/// Quotes, backslashes and the control characters that have a letter are written as a
/// backslash and a character, other control characters as a backslash, `u` and four
/// digits, and everything else as it is.
pub proof fn law_forms_of_escapes(c: char)
    ensures
        escaped('"') == seq!['\\', '"'],
        escaped('\\') == seq!['\\', '\\'],
        escaped(0x8int as char) == seq!['\\', 'b'],
        escaped('\t') == seq!['\\', 't'],
        escaped('\n') == seq!['\\', 'n'],
        escaped(0xcint as char) == seq!['\\', 'f'],
        escaped('\r') == seq!['\\', 'r'],
        c as u32 >= 0x20 && c != '"' && c != '\\' ==> escaped(c) == seq![c],
        (c as u32) < 0x20 && !(0x8 <= c as u32 <= 0xa) && !(0xc <= c as u32 <= 0xd) ==> escaped(
            c,
        ).len() == 6,
{
}

/// A record is an object with the error, then the guid and then the message, as far as
/// there are any.
pub proof fn law_forms_of_records(error: Seq<char>, guid: Seq<char>, message: Seq<char>)
    ensures
        record_of(error, None, None) == "{\"$error\":"@ + json_string_of(error) + "}"@,
        record_of(error, Some(guid), None) == "{\"$error\":"@ + json_string_of(error)
            + ",\"$guid\":"@ + json_string_of(guid) + "}"@,
        record_of(error, None, Some(message)) == "{\"$error\":"@ + json_string_of(error)
            + ",\"$message\":"@ + json_string_of(message) + "}"@,
        record_of(error, Some(guid), Some(message)) == "{\"$error\":"@ + json_string_of(error)
            + ",\"$guid\":"@ + json_string_of(guid) + ",\"$message\":"@ + json_string_of(
            message,
        ) + "}"@,
{
}

/// The line of a descriptor is the descriptor, or a record of what went wrong with it.
pub proof fn law_lines_of_descriptors(
    guid: Seq<char>,
    text: String,
    path: Seq<char>,
    reason: Seq<char>,
)
    ensures
        line_of(guid, Reading::Written(text)) == text@,
        line_of(guid, Reading::Unwritable(text)) == record_of(
            "SerializationError"@,
            Some(guid),
            Some(text@),
        ),
        line_of(guid, Reading::NotFound) == record_of("NotFound"@, Some(guid), None),
        line_of(guid, Reading::Unreadable(text)) == record_of(
            "ReadError"@,
            Some(guid),
            Some(text@),
        ),
        unopened_line_of(path, reason) == record_of(
            "KFCReaderError"@,
            None,
            Some("Failed to open "@ + path + ": "@ + reason),
        ),
{
}

} // verus!
