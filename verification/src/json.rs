//! JSON as it goes to the controller and comes back from it.
//!
//! What goes out is small and fixed in shape: an object with one or two
//! string members. This module writes a text as a JSON string, so that any
//! text at all can stand in such an object. What comes back is parsed by
//! `serde_json`; this module decides which members a reply must have and what
//! is made of them.

use crate::error::{Failure, ServiceError};
use crate::text::{chars_of, digit_char};
use vstd::prelude::*;
use vstd::string::*;
use vstd::utf8::*;

verus! {

#[verifier::external_type_specification]
#[verifier::external_body]
pub struct ExJsonValue(serde_json::Value);

#[verifier::external_type_specification]
#[verifier::external_body]
pub struct ExJsonError(serde_json::Error);

/// The members of a JSON object by their keys: under a key stands the text
/// of the member where the member is a JSON string, and nothing where it is
/// of another kind. The map is empty for a value that is no object.
pub uninterp spec fn json_members(doc: serde_json::Value) -> Map<Seq<char>, Option<Seq<char>>>;

/// What `serde_json` makes of a text: nothing where the text is no JSON
/// value, else the members of the value it stands for.
pub uninterp spec fn json_parse(text: Seq<char>) -> Option<Map<Seq<char>, Option<Seq<char>>>>;

/// The text that `String::from_utf8_lossy` reads out of bytes.
pub uninterp spec fn utf8_lossy(bytes: Seq<u8>) -> Seq<char>;

/// `String::from_utf8_lossy`: bytes that are valid UTF-8 give the text they
/// encode; any other bytes give a text that depends on the bytes alone.
#[verifier::external_body]
fn text_from_bytes(bytes: &[u8]) -> (text: String)
    ensures
        text@ == utf8_lossy(bytes@),
        valid_utf8(bytes@) ==> text@ == decode_utf8(bytes@),
{
    String::from_utf8_lossy(bytes).into_owned()
}

/// `serde_json::from_str` for a `serde_json::Value`: whether it succeeds, and
/// which members the value has, depends on the text alone.
#[verifier::external_body]
fn parse_json(text: &str) -> (parsed: Result<serde_json::Value, serde_json::Error>)
    ensures
        match parsed {
            Ok(doc) => json_parse(text@) == Some(json_members(doc)),
            Err(_) => json_parse(text@) is None,
        },
{
    serde_json::from_str::<serde_json::Value>(text)
}

/// What stands under a key of a reply.
#[derive(Clone, Debug, PartialEq, Eq)]
pub enum Member {
    /// No member has the key.
    Missing,
    /// The member is a JSON string with this text.
    Text(String),
    /// The member is of another kind: a number, an object and so on.
    Other,
}

/// A member as plain mathematical values.
pub enum MemberModel {
    Missing,
    Text(Seq<char>),
    Other,
}

impl View for Member {
    type V = MemberModel;

    open spec fn view(&self) -> MemberModel {
        match self {
            Member::Missing => MemberModel::Missing,
            Member::Text(text) => MemberModel::Text(text@),
            Member::Other => MemberModel::Other,
        }
    }
}

/// What stands under `key` in `members`.
pub open spec fn member_at(members: Map<Seq<char>, Option<Seq<char>>>, key: Seq<char>) -> MemberModel {
    if !members.contains_key(key) {
        MemberModel::Missing
    } else {
        match members[key] {
            Some(text) => MemberModel::Text(text),
            None => MemberModel::Other,
        }
    }
}

/// `serde_json::Value::get` with a string key: the member of an object under
/// that key, if there is one. The member is handed out as its text where it
/// is a JSON string, and without what it holds where it is of another kind.
#[verifier::external_body]
fn member(doc: &serde_json::Value, key: &str) -> (found: Member)
    ensures
        found@ == member_at(json_members(*doc), key@),
{
    match doc.get(key) {
        Some(serde_json::Value::String(text)) => Member::Text(text.clone()),
        Some(_) => Member::Other,
        None => Member::Missing,
    }
}

/// What a successful start hands back: the container and its editor.
#[derive(Clone, Debug, PartialEq, Eq)]
pub struct SessionResponse {
    pub container_id: String,
    pub editor_url: String,
}

/// The detail of the failure for a member that is not there.
pub open spec fn missing_member(key: Seq<char>) -> Seq<char> {
    "missing field `"@ + key + "`"@
}

/// The detail of the failure for a member that is no string.
pub open spec fn wrong_member(key: Seq<char>) -> Seq<char> {
    "invalid type for field `"@ + key + "`, expected a string"@
}

/// What is wrong with the member under `key`, if anything is.
pub open spec fn member_fault(key: Seq<char>, found: MemberModel) -> Option<Seq<char>> {
    match found {
        MemberModel::Missing => Some(missing_member(key)),
        MemberModel::Other => Some(wrong_member(key)),
        MemberModel::Text(_) => None,
    }
}

/// What is made of the two members that a reply must have: the container
/// id and the editor address where both are strings, else the detail of
/// what is wrong with the first of the two that is not. The container id is
/// looked at first.
pub open spec fn session_of(container_id: MemberModel, editor_url: MemberModel) -> Result<
    (Seq<char>, Seq<char>),
    Seq<char>,
> {
    match (container_id, editor_url) {
        (MemberModel::Text(c), MemberModel::Text(e)) => Ok((c, e)),
        (MemberModel::Text(_), other) => Err(member_fault("editor_url"@, other)->0),
        (other, _) => Err(member_fault("container_id"@, other)->0),
    }
}

/// What is made of the members of a reply. Members under other keys do not
/// matter.
pub open spec fn session_fields(members: Map<Seq<char>, Option<Seq<char>>>) -> Result<
    (Seq<char>, Seq<char>),
    Seq<char>,
> {
    session_of(member_at(members, "container_id"@), member_at(members, "editor_url"@))
}

/// The container id and editor address that a reply body holds, if it is a
/// JSON object with both as strings.
pub open spec fn decoded_session(body: Seq<u8>) -> Option<(Seq<char>, Seq<char>)> {
    match json_parse(utf8_lossy(body)) {
        Some(members) => match session_fields(members) {
            Ok(fields) => Some(fields),
            Err(_) => None,
        },
        None => None,
    }
}

/// Whether `detail` is the detail of the failure that the body of a reply
/// ends in. Where the body is a JSON text, the detail names the member that
/// is missing or of the wrong kind. Where it is none, the detail is what the
/// parser reports.
pub open spec fn malformed_detail(body: Seq<u8>, detail: Seq<char>) -> bool {
    match json_parse(utf8_lossy(body)) {
        Some(members) => session_fields(members) == Err::<(Seq<char>, Seq<char>), Seq<char>>(
            detail,
        ),
        None => true,
    }
}

fn fault(key: &str, found: &Member) -> (res: ServiceError)
    requires
        !(found@ is Text),
    ensures
        res@ == (Failure::MalformedResponse {
            detail: member_fault(key@, found@)->0,
        }),
{
    let mut detail = match found {
        Member::Missing => String::from_str("missing field `"),
        _ => String::from_str("invalid type for field `"),
    };
    detail.append(key);
    match found {
        Member::Missing => {
            detail.append("`");
        },
        _ => {
            detail.append("`, expected a string");
        },
    }
    ServiceError::MalformedResponse { detail }
}

/// Puts a session response together from the two members that a reply must
/// have, or says what is wrong with the first of them that is no string.
pub fn session_from_members(container_id: Member, editor_url: Member) -> (res: Result<
    SessionResponse,
    ServiceError,
>)
    ensures
        match session_of(container_id@, editor_url@) {
            Ok((c, e)) => res matches Ok(session) && session.container_id@ == c
                && session.editor_url@ == e,
            Err(detail) => res matches Err(ServiceError::MalformedResponse { detail: found })
                && found@ == detail,
        },
{
    match container_id {
        Member::Text(c) => match editor_url {
            Member::Text(e) => Ok(SessionResponse { container_id: c, editor_url: e }),
            other => Err(fault("editor_url", &other)),
        },
        other => Err(fault("container_id", &other)),
    }
}

/// Reads a reply body as a session response.
///
/// The body is read as UTF-8 text and parsed as JSON. It is accepted when it
/// is an object with the string members `container_id` and `editor_url`;
/// other members are ignored. Anything else is a malformed response.
pub fn decode_session(body: &[u8]) -> (res: Result<SessionResponse, ServiceError>)
    ensures
        match decoded_session(body@) {
            Some((container_id, editor_url)) => res matches Ok(session) && session.container_id@
                == container_id && session.editor_url@ == editor_url,
            None => res matches Err(ServiceError::MalformedResponse { detail })
                && malformed_detail(body@, detail@),
        },
{
    let text = text_from_bytes(body);
    match parse_json(text.as_str()) {
        Err(e) => Err(ServiceError::MalformedResponse { detail: e.to_string() }),
        Ok(doc) => {
            let container_id = member(&doc, "container_id");
            let editor_url = member(&doc, "editor_url");
            session_from_members(container_id, editor_url)
        },
    }
}

/// The character that stands for a hexadecimal digit, in lower case.
pub open spec fn hex_char(d: nat) -> char {
    if d < 10 {
        digit_char(d)
    } else if d == 10 {
        'a'
    } else if d == 11 {
        'b'
    } else if d == 12 {
        'c'
    } else if d == 13 {
        'd'
    } else if d == 14 {
        'e'
    } else {
        'f'
    }
}

/// Whether a character cannot stand for itself inside a JSON string: the
/// quote, the backslash, and the control characters below U+0020.
pub open spec fn needs_escape(c: char) -> bool {
    c == '"' || c == '\\' || (c as u32) < 0x20
}

/// A character as it stands inside a JSON string. The quote and the
/// backslash get a backslash in front. Backspace, tab, line feed, form feed
/// and carriage return are written with their letter. Any other control
/// character is written with its code in four hexadecimal digits. Every
/// other character stands for itself.
pub open spec fn escaped_char(c: char) -> Seq<char> {
    if c == '"' {
        seq!['\\', '"']
    } else if c == '\\' {
        seq!['\\', '\\']
    } else if c == '\u{8}' {
        seq!['\\', 'b']
    } else if c == '\t' {
        seq!['\\', 't']
    } else if c == '\n' {
        seq!['\\', 'n']
    } else if c == '\u{c}' {
        seq!['\\', 'f']
    } else if c == '\r' {
        seq!['\\', 'r']
    } else if (c as u32) < 0x20 {
        seq![
            '\\',
            'u',
            '0',
            '0',
            hex_char((c as u32 / 16) as nat),
            hex_char((c as u32 % 16) as nat),
        ]
    } else {
        seq![c]
    }
}

/// A text as it stands inside a JSON string, character by character.
pub open spec fn escaped(s: Seq<char>) -> Seq<char>
    decreases s.len(),
{
    if s.len() == 0 {
        Seq::empty()
    } else {
        escaped(s.drop_last()) + escaped_char(s.last())
    }
}

/// A text as a JSON string: between two quotes, with what cannot stand for
/// itself escaped.
pub open spec fn json_string(s: Seq<char>) -> Seq<char> {
    seq!['"'] + escaped(s) + seq!['"']
}

fn hex_text(d: u8) -> (text: &'static str)
    requires
        d < 16,
    ensures
        text@ == seq![hex_char(d as nat)],
{
    proof {
        reveal_strlit("0");
        reveal_strlit("1");
        reveal_strlit("2");
        reveal_strlit("3");
        reveal_strlit("4");
        reveal_strlit("5");
        reveal_strlit("6");
        reveal_strlit("7");
        reveal_strlit("8");
        reveal_strlit("9");
        reveal_strlit("a");
        reveal_strlit("b");
        reveal_strlit("c");
        reveal_strlit("d");
        reveal_strlit("e");
        reveal_strlit("f");
    }
    let text = match d {
        0 => "0",
        1 => "1",
        2 => "2",
        3 => "3",
        4 => "4",
        5 => "5",
        6 => "6",
        7 => "7",
        8 => "8",
        9 => "9",
        10 => "a",
        11 => "b",
        12 => "c",
        13 => "d",
        14 => "e",
        _ => "f",
    };
    assert(text@ =~= seq![hex_char(d as nat)]);
    text
}

/// The escape of a character that cannot stand for itself.
fn escape_of(c: char) -> (escape: String)
    requires
        needs_escape(c),
    ensures
        escape@ == escaped_char(c),
{
    proof {
        reveal_strlit("\\\"");
        reveal_strlit("\\\\");
        reveal_strlit("\\b");
        reveal_strlit("\\t");
        reveal_strlit("\\n");
        reveal_strlit("\\f");
        reveal_strlit("\\r");
        reveal_strlit("\\u00");
    }
    if c == '"' {
        let escape = String::from_str("\\\"");
        assert(escape@ =~= escaped_char(c));
        escape
    } else if c == '\\' {
        let escape = String::from_str("\\\\");
        assert(escape@ =~= escaped_char(c));
        escape
    } else if c == '\u{8}' {
        let escape = String::from_str("\\b");
        assert(escape@ =~= escaped_char(c));
        escape
    } else if c == '\t' {
        let escape = String::from_str("\\t");
        assert(escape@ =~= escaped_char(c));
        escape
    } else if c == '\n' {
        let escape = String::from_str("\\n");
        assert(escape@ =~= escaped_char(c));
        escape
    } else if c == '\u{c}' {
        let escape = String::from_str("\\f");
        assert(escape@ =~= escaped_char(c));
        escape
    } else if c == '\r' {
        let escape = String::from_str("\\r");
        assert(escape@ =~= escaped_char(c));
        escape
    } else {
        let code: u32 = c as u32;
        let high: u8 = (code / 16) as u8;
        let low: u8 = (code % 16) as u8;
        let mut escape = String::from_str("\\u00");
        escape.append(hex_text(high));
        escape.append(hex_text(low));
        assert(escape@ =~= escaped_char(c));
        escape
    }
}

/// Writes a text as a JSON string.
pub fn json_quote(s: &str) -> (quoted: String)
    ensures
        quoted@ == json_string(s@),
{
    proof {
        reveal_strlit("\"");
    }
    let chars = chars_of(s);
    let mut quoted = String::from_str("\"");
    let mut start: usize = 0;
    let mut i: usize = 0;
    assert(quoted@ + s@.subrange(0, 0) =~= seq!['"'] + escaped(s@.take(0)));
    while i < chars.len()
        invariant
            chars@ == s@,
            start <= i <= chars.len(),
            quoted@ + s@.subrange(start as int, i as int) == seq!['"'] + escaped(s@.take(i as int)),
        decreases chars.len() - i,
    {
        let c = chars[i];
        let ghost before = escaped(s@.take(i as int));
        assert(s@.take(i + 1).drop_last() =~= s@.take(i as int));
        assert(s@.take(i + 1).last() == c);
        assert(escaped(s@.take(i + 1)) == before + escaped_char(c));
        if c == '"' || c == '\\' || (c as u32) < 0x20 {
            let run = s.substring_char(start, i);
            quoted.append(run);
            let escape = escape_of(c);
            quoted.append(escape.as_str());
            start = i + 1;
            assert(quoted@ + s@.subrange(start as int, i + 1) =~= seq!['"'] + (before + escaped_char(
                c,
            )));
        } else {
            assert(escaped_char(c) == seq![c]) by {
                assert('\u{8}' as u32 == 8);
                assert('\t' as u32 == 9);
                assert('\n' as u32 == 10);
                assert('\u{c}' as u32 == 12);
                assert('\r' as u32 == 13);
            }
            let ghost run = s@.subrange(start as int, i as int);
            assert(s@.subrange(start as int, i + 1) =~= run.push(c));
            assert(quoted@ + run.push(c) =~= (quoted@ + run).push(c));
            assert((seq!['"'] + before).push(c) =~= seq!['"'] + (before + seq![c]));
        }
        i += 1;
    }
    assert(s@.take(i as int) =~= s@);
    let run = s.substring_char(start, i);
    quoted.append(run);
    quoted.append("\"");
    quoted
}

/// The number that a hexadecimal digit in lower case stands for.
pub open spec fn hex_value(c: char) -> Option<nat> {
    let code = c as u32;
    if 0x30 <= code <= 0x39 {
        Some((code - 0x30) as nat)
    } else if 0x61 <= code <= 0x66 {
        Some((code - 0x61 + 10) as nat)
    } else {
        None
    }
}

/// The character that a backslash and a letter stand for inside a JSON
/// string.
pub open spec fn short_escape(letter: char) -> Option<char> {
    if letter == '"' {
        Some('"')
    } else if letter == '\\' {
        Some('\\')
    } else if letter == '/' {
        Some('/')
    } else if letter == 'b' {
        Some('\u{8}')
    } else if letter == 't' {
        Some('\t')
    } else if letter == 'n' {
        Some('\n')
    } else if letter == 'f' {
        Some('\u{c}')
    } else if letter == 'r' {
        Some('\r')
    } else {
        None
    }
}

/// The code that four hexadecimal digits stand for, if they are such.
pub open spec fn hex_code(a: char, b: char, c: char, d: char) -> Option<nat> {
    match (hex_value(a), hex_value(b), hex_value(c), hex_value(d)) {
        (Some(w), Some(x), Some(y), Some(z)) => Some(((w * 16 + x) * 16 + y) * 16 + z),
        _ => None,
    }
}

/// Reads the inside of a JSON string: the text that it stands for. There is
/// none where a quote or a control character stands bare, where a backslash
/// is followed by nothing that JSON knows, or where an escape gives the code
/// of half a character.
pub open spec fn unescaped(t: Seq<char>) -> Option<Seq<char>>
    decreases t.len(),
{
    if t.len() == 0 {
        Some(Seq::empty())
    } else if t[0] == '"' || (t[0] as u32) < 0x20 {
        None
    } else if t[0] != '\\' {
        match unescaped(t.skip(1)) {
            Some(rest) => Some(seq![t[0]] + rest),
            None => None,
        }
    } else if t.len() >= 2 && short_escape(t[1]) is Some {
        match unescaped(t.skip(2)) {
            Some(rest) => Some(seq![short_escape(t[1])->0] + rest),
            None => None,
        }
    } else if t.len() >= 6 && t[1] == 'u' && hex_code(t[2], t[3], t[4], t[5]) is Some {
        let code = hex_code(t[2], t[3], t[4], t[5])->0;
        if code < 0xD800 || 0xDFFF < code {
            match unescaped(t.skip(6)) {
                Some(rest) => Some(seq![(code as u32) as char] + rest),
                None => None,
            }
        } else {
            None
        }
    } else {
        None
    }
}

proof fn lemma_escaped_from_the_front(c: char, s: Seq<char>)
    ensures
        escaped(seq![c] + s) == escaped_char(c) + escaped(s),
    decreases s.len(),
{
    let whole = seq![c] + s;
    if s.len() == 0 {
        assert(whole.drop_last() =~= Seq::<char>::empty());
        assert(escaped(whole.drop_last()) =~= Seq::<char>::empty());
        assert(escaped(whole) =~= escaped_char(c) + escaped(s));
    } else {
        lemma_escaped_from_the_front(c, s.drop_last());
        assert(whole.drop_last() =~= seq![c] + s.drop_last());
        assert(whole.last() == s.last());
        assert(escaped(whole) =~= escaped_char(c) + escaped(s));
    }
}

proof fn lemma_hex_digit_reads_back(d: nat)
    requires
        d < 16,
    ensures
        hex_value(hex_char(d)) == Some(d),
{
    assert('0' as u32 == 0x30 && '1' as u32 == 0x31 && '2' as u32 == 0x32 && '3' as u32 == 0x33);
    assert('4' as u32 == 0x34 && '5' as u32 == 0x35 && '6' as u32 == 0x36 && '7' as u32 == 0x37);
    assert('8' as u32 == 0x38 && '9' as u32 == 0x39);
    assert('a' as u32 == 0x61 && 'b' as u32 == 0x62 && 'c' as u32 == 0x63);
    assert('d' as u32 == 0x64 && 'e' as u32 == 0x65 && 'f' as u32 == 0x66);
}

proof fn lemma_escape_reads_back(c: char, rest: Seq<char>, read: Seq<char>)
    requires
        unescaped(rest) == Some(read),
    ensures
        unescaped(escaped_char(c) + rest) == Some(seq![c] + read),
{
    let e = escaped_char(c);
    let t = e + rest;
    assert('"' as u32 == 0x22 && '\\' as u32 == 0x5C && '/' as u32 == 0x2F);
    assert('\u{8}' as u32 == 8 && '\t' as u32 == 9 && '\n' as u32 == 10);
    assert('\u{c}' as u32 == 12 && '\r' as u32 == 13);
    assert('b' as u32 == 0x62 && 't' as u32 == 0x74 && 'n' as u32 == 0x6E);
    assert('f' as u32 == 0x66 && 'r' as u32 == 0x72 && 'u' as u32 == 0x75 && '0' as u32 == 0x30);
    if c == '"' || c == '\\' || c == '\u{8}' || c == '\t' || c == '\n' || c == '\u{c}' || c
        == '\r' {
        assert(e.len() == 2);
        assert(t[0] == '\\');
        assert(t[1] == e[1]);
        assert(short_escape(t[1]) == Some(c));
        assert(t.skip(2) =~= rest);
    } else if (c as u32) < 0x20 {
        let high = (c as u32 / 16) as nat;
        let low = (c as u32 % 16) as nat;
        lemma_hex_digit_reads_back(high);
        lemma_hex_digit_reads_back(low);
        lemma_hex_digit_reads_back(0);
        assert(e.len() == 6);
        assert(t[0] == '\\' && t[1] == 'u' && t[2] == '0' && t[3] == '0');
        assert(t[4] == hex_char(high) && t[5] == hex_char(low));
        assert(short_escape('u') is None);
        assert(hex_code(t[2], t[3], t[4], t[5]) == Some((c as u32) as nat));
        assert(((c as u32) as nat as u32) as char == c);
        assert(t.skip(6) =~= rest);
    } else {
        assert(e.len() == 1);
        assert(t[0] == c);
        assert(t.skip(1) =~= rest);
    }
}

/// What `json_string` writes between its quotes is read back as the text
/// that was written, whatever the text.
pub proof fn lemma_json_string_reads_back(s: Seq<char>)
    ensures
        unescaped(escaped(s)) == Some(s),
        json_string(s).first() == '"',
        json_string(s).last() == '"',
        json_string(s).subrange(1, json_string(s).len() - 1) == escaped(s),
    decreases s.len(),
{
    if s.len() > 0 {
        let tail = s.skip(1);
        lemma_json_string_reads_back(tail);
        assert(s =~= seq![s[0]] + tail);
        lemma_escaped_from_the_front(s[0], tail);
        lemma_escape_reads_back(s[0], escaped(tail), tail);
    }
    assert(json_string(s).subrange(1, json_string(s).len() - 1) =~= escaped(s));
}

} // verus!
