//! Envelopes on the wire: one JSON object of four string members per line.
//!
//! The members of a record are quoted and read back by `serde_json`; which
//! members an envelope has, in which order they are written and what they
//! must hold to be read back is decided here.

use crate::envelope::{Envelope, EnvelopeView, Kind};
use std::collections::BTreeMap;
use vstd::prelude::*;

verus! {

/// Why a record could not be written or read.
#[derive(Clone, Copy, Debug, PartialEq, Eq, Structural)]
pub enum CodecError {
    /// The JSON writer refused one of the strings. The writer in use
    /// refuses none, so that no function of this module returns it.
    Encode,
    /// The text is not a JSON object whose members are all strings.
    Malformed,
    /// The members are not exactly those of an envelope.
    WrongFields,
    /// `message_type` names no kind of envelope.
    UnknownKind,
}

/// One member of a record: a name and its text.
#[derive(Clone, Debug, PartialEq, Eq)]
pub struct Field {
    pub name: String,
    pub value: String,
}

impl View for Field {
    type V = (Seq<char>, Seq<char>);

    open spec fn view(&self) -> (Seq<char>, Seq<char>) {
        (self.name@, self.value@)
    }
}

/// The members of a record as mathematical pairs, in order.
pub open spec fn fields_view(fields: Seq<Field>) -> Seq<(Seq<char>, Seq<char>)> {
    fields.map_values(|f: Field| f@)
}

/// `serde_json::Error`, of which nothing is read here: it only says that
/// serde_json refused, and is turned into a [`CodecError`] at once.
#[verifier::external_type_specification]
#[verifier::external_body]
pub struct ExJsonError(serde_json::Error);

/// The JSON text that `serde_json` writes for the string `s`.
pub uninterp spec fn json_string_text(s: Seq<char>) -> Seq<char>;

/// The members that `serde_json` reads from `text` as a map from strings to
/// strings, in the order of the map; `None` where it refuses `text`.
pub uninterp spec fn json_string_fields(text: Seq<char>) -> Option<Seq<(Seq<char>, Seq<char>)>>;

/// Whether no character of `s` is a line feed.
pub open spec fn has_no_line_feed(s: Seq<char>) -> bool {
    forall|i: int| 0 <= i < s.len() ==> s[i] != '\n'
}

/// Calls `serde_json::to_string` on a string slice. Trusted: the call
/// succeeds, because serde_json writes a string into a buffer in memory and
/// a string's own serializer reports no error; its result is the same
/// function of the characters of `s`; and it holds no line feed, because
/// serde_json writes every control character as an escape.
#[verifier::external_body]
fn quote(s: &str) -> (r: Result<String, serde_json::Error>)
    ensures
        r is Ok,
        r matches Ok(text) ==> text@ == json_string_text(s@) && has_no_line_feed(text@),
{
    serde_json::to_string(s)
}

/// Calls `serde_json::from_str` for a `BTreeMap<String, String>` and hands
/// out the entries in the map's order. Trusted: whether the call succeeds,
/// and with which entries, is a function of the characters of `text`.
#[verifier::external_body]
fn parse_string_map(text: &str) -> (r: Result<Vec<Field>, serde_json::Error>)
    ensures
        match r {
            Ok(fields) => json_string_fields(text@) == Some(fields_view(fields@)),
            Err(_) => json_string_fields(text@) is None,
        },
{
    let map = serde_json::from_str::<BTreeMap<String, String>>(text)?;
    Ok(map.into_iter().map(|(name, value)| Field { name, value }).collect())
}

/// One member between braces: the quoted name, a colon, the quoted value.
pub open spec fn member_text(quoted: (Seq<char>, Seq<char>)) -> Seq<char> {
    quoted.0 + seq![':'] + quoted.1
}

/// The members of an object, separated by commas.
pub open spec fn members_text(quoted: Seq<(Seq<char>, Seq<char>)>) -> Seq<char>
    decreases quoted.len(),
{
    if quoted.len() == 0 {
        Seq::empty()
    } else if quoted.len() == 1 {
        member_text(quoted[0])
    } else {
        members_text(quoted.drop_last()) + seq![','] + member_text(quoted.last())
    }
}

/// A compact JSON object whose names and values are already quoted.
pub open spec fn framed(quoted: Seq<(Seq<char>, Seq<char>)>) -> Seq<char> {
    seq!['{'] + members_text(quoted) + seq!['}']
}

/// Every name and every value as JSON text.
pub open spec fn quoted(fields: Seq<(Seq<char>, Seq<char>)>) -> Seq<(Seq<char>, Seq<char>)> {
    fields.map_values(
        |f: (Seq<char>, Seq<char>)| (json_string_text(f.0), json_string_text(f.1)),
    )
}

/// The compact JSON object with the members `fields`, in order.
pub open spec fn object_text(fields: Seq<(Seq<char>, Seq<char>)>) -> Seq<char> {
    framed(quoted(fields))
}

/// Whether no name and no value of `members` holds a line feed.
pub open spec fn on_one_line(members: Seq<(Seq<char>, Seq<char>)>) -> bool {
    forall|i: int|
        0 <= i < members.len() ==> has_no_line_feed((#[trigger] members[i]).0) && has_no_line_feed(
            members[i].1,
        )
}

/// Frames members that are already JSON text as one compact object.
pub fn frame_object(quoted: &Vec<Field>) -> (text: String)
    ensures
        text@ == framed(fields_view(quoted@)),
        on_one_line(fields_view(quoted@)) ==> has_no_line_feed(text@),
{
    proof {
        reveal_strlit("{");
        reveal_strlit("}");
        reveal_strlit(":");
        reveal_strlit(",");
    }
    let ghost members = fields_view(quoted@);
    let mut text = String::from_str("{");
    let mut i: usize = 0;
    while i < quoted.len()
        invariant
            i <= quoted.len(),
            members == fields_view(quoted@),
            text@ == seq!['{'] + members_text(members.take(i as int)),
            on_one_line(members) ==> has_no_line_feed(text@),
            ":"@ == seq![':'],
            ","@ == seq![','],
        decreases quoted.len() - i,
    {
        proof {
            if on_one_line(members) {
                assert(has_no_line_feed(members[i as int].0));
                assert(has_no_line_feed(members[i as int].1));
            }
        }
        if i > 0 {
            text.append(",");
        }
        text.append(quoted[i].name.as_str());
        text.append(":");
        text.append(quoted[i].value.as_str());
        proof {
            let head = members.take(i as int);
            let next = members.take(i + 1);
            assert(next.drop_last() == head);
            assert(next.last() == quoted@[i as int]@);
            assert(text@ == seq!['{'] + members_text(next));
        }
        i += 1;
    }
    proof {
        assert(members.take(i as int) == members);
    }
    text.append("}");
    text
}

/// Writes `fields` as one compact JSON object, which holds no line feed.
/// Every record can be written.
pub fn write_object(fields: &Vec<Field>) -> (r: Result<String, CodecError>)
    ensures
        r matches Ok(text) && text@ == object_text(fields_view(fields@)) && has_no_line_feed(
            text@,
        ),
{
    let ghost members = fields_view(fields@);
    let mut done: Vec<Field> = Vec::new();
    let mut i: usize = 0;
    while i < fields.len()
        invariant
            i <= fields.len(),
            members == fields_view(fields@),
            fields_view(done@) == quoted(members.take(i as int)),
            on_one_line(fields_view(done@)),
        decreases fields.len() - i,
    {
        let name = match quote(fields[i].name.as_str()) {
            Ok(text) => text,
            Err(_) => {
                return Err(CodecError::Encode);
            },
        };
        let value = match quote(fields[i].value.as_str()) {
            Ok(text) => text,
            Err(_) => {
                return Err(CodecError::Encode);
            },
        };
        let ghost before = fields_view(done@);
        done.push(Field { name, value });
        proof {
            assert(fields_view(done@) == before.push((
                json_string_text(members[i as int].0),
                json_string_text(members[i as int].1),
            )));
            assert(members.take(i + 1) == members.take(i as int).push(members[i as int]));
            assert(fields_view(done@) == quoted(members.take(i + 1)));
            assert forall|k: int| 0 <= k < done@.len() implies has_no_line_feed(
                (#[trigger] fields_view(done@)[k]).0,
            ) && has_no_line_feed(fields_view(done@)[k].1) by {
                if k < before.len() {
                    assert(fields_view(done@)[k] == before[k]);
                }
            }
        }
        i += 1;
    }
    proof {
        assert(members.take(i as int) == members);
    }
    Ok(frame_object(&done))
}

/// Reads a JSON object whose members are all strings.
pub fn read_object(text: &str) -> (r: Result<Vec<Field>, CodecError>)
    ensures
        match r {
            Ok(fields) => json_string_fields(text@) == Some(fields_view(fields@)),
            Err(e) => e == CodecError::Malformed && json_string_fields(text@) is None,
        },
{
    match parse_string_map(text) {
        Ok(fields) => Ok(fields),
        Err(_) => Err(CodecError::Malformed),
    }
}

/// The name of the member that holds the sender.
pub open spec fn sender_key() -> Seq<char> {
    "username"@
}

/// The name of the member that holds the body.
pub open spec fn body_key() -> Seq<char> {
    "content"@
}

/// The name of the member that holds the time of publication.
pub open spec fn sent_at_key() -> Seq<char> {
    "timestamp"@
}

/// The name of the member that holds the kind.
pub open spec fn kind_key() -> Seq<char> {
    "message_type"@
}

/// How a kind is spelled on the wire.
pub open spec fn kind_name(kind: Kind) -> Seq<char> {
    match kind {
        Kind::SystemNotice => "Broadcast"@,
        Kind::UserText => "UserMessage"@,
    }
}

/// The kind that `name` spells, if any.
pub open spec fn kind_named(name: Seq<char>) -> Option<Kind> {
    if name == kind_name(Kind::SystemNotice) {
        Some(Kind::SystemNotice)
    } else if name == kind_name(Kind::UserText) {
        Some(Kind::UserText)
    } else {
        None
    }
}

/// The value of the first member called `key`.
pub open spec fn lookup(fields: Seq<(Seq<char>, Seq<char>)>, key: Seq<char>) -> Option<Seq<char>>
    decreases fields.len(),
{
    if fields.len() == 0 {
        None
    } else if fields[0].0 == key {
        Some(fields[0].1)
    } else {
        lookup(fields.drop_first(), key)
    }
}

/// The record of an envelope: its four members, in the order of the wire.
pub open spec fn fields_of(e: EnvelopeView) -> Seq<(Seq<char>, Seq<char>)> {
    seq![
        (sender_key(), e.sender),
        (body_key(), e.body),
        (sent_at_key(), e.sent_at),
        (kind_key(), kind_name(e.kind)),
    ]
}

/// The envelope that a record stands for. The record must hold the four
/// members of an envelope and no other, in any order, and spell a kind.
pub open spec fn envelope_of_fields(fields: Seq<(Seq<char>, Seq<char>)>) -> Result<
    EnvelopeView,
    CodecError,
> {
    let sender = lookup(fields, sender_key());
    let body = lookup(fields, body_key());
    let sent_at = lookup(fields, sent_at_key());
    let kind = lookup(fields, kind_key());
    if fields.len() != 4 || sender is None || body is None || sent_at is None || kind is None {
        Err(CodecError::WrongFields)
    } else {
        match kind_named(kind->0) {
            None => Err(CodecError::UnknownKind),
            Some(kind) => Ok(
                EnvelopeView { sender: sender->0, body: body->0, sent_at: sent_at->0, kind },
            ),
        }
    }
}

/// The JSON object that carries `e`.
pub open spec fn wire_text(e: EnvelopeView) -> Seq<char> {
    object_text(fields_of(e))
}

/// The line that carries `e`: its JSON object and a line feed.
pub open spec fn wire_line(e: EnvelopeView) -> Seq<char> {
    wire_text(e) + seq!['\n']
}

/// Whether `line` ends in a line feed and holds no other.
pub open spec fn is_one_line(line: Seq<char>) -> bool {
    line.len() > 0 && line.last() == '\n' && has_no_line_feed(line.drop_last())
}

/// The envelope that the JSON text `text` carries.
pub open spec fn envelope_of_text(text: Seq<char>) -> Result<EnvelopeView, CodecError> {
    match json_string_fields(text) {
        None => Err(CodecError::Malformed),
        Some(fields) => envelope_of_fields(fields),
    }
}

/// The value of the first member of `fields` called `key`.
pub fn find(fields: &Vec<Field>, key: &str) -> (found: Option<String>)
    ensures
        match found {
            Some(value) => lookup(fields_view(fields@), key@) == Some(value@),
            None => lookup(fields_view(fields@), key@) is None,
        },
{
    let wanted = String::from_str(key);
    let ghost members = fields_view(fields@);
    let mut i: usize = 0;
    proof {
        assert(members.skip(0) == members);
    }
    while i < fields.len()
        invariant
            i <= fields.len(),
            wanted@ == key@,
            members == fields_view(fields@),
            lookup(members, key@) == lookup(members.skip(i as int), key@),
        decreases fields.len() - i,
    {
        proof {
            let rest = members.skip(i as int);
            assert(rest[0] == fields@[i as int]@);
            assert(rest.drop_first() == members.skip(i + 1));
        }
        if fields[i].name == wanted {
            return Some(fields[i].value.clone());
        }
        i += 1;
    }
    None
}

/// The kind that `name` spells on the wire.
pub fn kind_from_name(name: &str) -> (kind: Option<Kind>)
    ensures
        kind == kind_named(name@),
{
    let name = String::from_str(name);
    if name == String::from_str("Broadcast") {
        Some(Kind::SystemNotice)
    } else if name == String::from_str("UserMessage") {
        Some(Kind::UserText)
    } else {
        None
    }
}

impl Envelope {
    /// The four members that carry this envelope.
    pub fn to_fields(&self) -> (fields: Vec<Field>)
        ensures
            fields_view(fields@) == fields_of(self@),
    {
        let kind = match self.kind {
            Kind::SystemNotice => String::from_str("Broadcast"),
            Kind::UserText => String::from_str("UserMessage"),
        };
        let mut fields: Vec<Field> = Vec::new();
        fields.push(Field { name: String::from_str("username"), value: self.sender.clone() });
        fields.push(Field { name: String::from_str("content"), value: self.body.clone() });
        fields.push(Field { name: String::from_str("timestamp"), value: self.sent_at.clone() });
        fields.push(Field { name: String::from_str("message_type"), value: kind });
        proof {
            assert(fields_view(fields@) =~= fields_of(self@));
        }
        fields
    }

    /// The envelope that `fields` stand for.
    pub fn from_fields(fields: &Vec<Field>) -> (r: Result<Envelope, CodecError>)
        ensures
            match r {
                Ok(e) => envelope_of_fields(fields_view(fields@)) == Ok::<EnvelopeView, CodecError>(
                    e@,
                ),
                Err(err) => envelope_of_fields(fields_view(fields@)) == Err::<
                    EnvelopeView,
                    CodecError,
                >(err),
            },
    {
        if fields.len() != 4 {
            return Err(CodecError::WrongFields);
        }
        let sender = find(fields, "username");
        let body = find(fields, "content");
        let sent_at = find(fields, "timestamp");
        let kind = find(fields, "message_type");
        match (sender, body, sent_at, kind) {
            (Some(sender), Some(body), Some(sent_at), Some(kind)) => {
                match kind_from_name(kind.as_str()) {
                    Some(kind) => Ok(Envelope { sender, body, sent_at, kind }),
                    None => Err(CodecError::UnknownKind),
                }
            },
            _ => Err(CodecError::WrongFields),
        }
    }

    /// This envelope as one compact JSON object, which holds no line feed.
    /// Every envelope can be encoded.
    pub fn encode(&self) -> (r: Result<String, CodecError>)
        ensures
            r matches Ok(text) && text@ == wire_text(self@) && has_no_line_feed(text@),
    {
        let fields = self.to_fields();
        write_object(&fields)
    }

    /// This envelope as one line of the wire: its JSON object and then the
    /// only line feed of the line. Every envelope can be encoded.
    pub fn encode_line(&self) -> (r: Result<String, CodecError>)
        ensures
            r matches Ok(line) && line@ == wire_line(self@) && is_one_line(line@),
    {
        match self.encode() {
            Ok(text) => {
                proof {
                    reveal_strlit("\n");
                    assert((text@ + seq!['\n']).drop_last() == text@);
                }
                Ok(text.concat("\n"))
            },
            Err(e) => Err(e),
        }
    }

    /// The envelope that the JSON text `text` carries. Where `text` repeats
    /// a member, the JSON reader keeps the last one of that name.
    pub fn decode(text: &str) -> (r: Result<Envelope, CodecError>)
        ensures
            match r {
                Ok(e) => envelope_of_text(text@) == Ok::<EnvelopeView, CodecError>(e@),
                Err(err) => envelope_of_text(text@) == Err::<EnvelopeView, CodecError>(err),
            },
    {
        match read_object(text) {
            Ok(fields) => Envelope::from_fields(&fields),
            Err(e) => Err(e),
        }
    }
}

/// The four member names differ from one another, and so do the two
/// spellings of a kind.
pub proof fn lemma_names_differ()
    ensures
        sender_key() != body_key(),
        sender_key() != sent_at_key(),
        sender_key() != kind_key(),
        body_key() != sent_at_key(),
        body_key() != kind_key(),
        sent_at_key() != kind_key(),
        kind_name(Kind::SystemNotice) != kind_name(Kind::UserText),
{
    reveal_strlit("username");
    reveal_strlit("content");
    reveal_strlit("timestamp");
    reveal_strlit("message_type");
    reveal_strlit("Broadcast");
    reveal_strlit("UserMessage");
    assert(sender_key().len() == 8);
    assert(body_key().len() == 7);
    assert(sent_at_key().len() == 9);
    assert(kind_key().len() == 12);
    assert(kind_name(Kind::SystemNotice).len() == 9);
    assert(kind_name(Kind::UserText).len() == 11);
}

/// Round trip through the record: the members written for an envelope
/// stand for that envelope again, field for field.
pub proof fn law_record_round_trip(e: EnvelopeView)
    ensures
        envelope_of_fields(fields_of(e)) == Ok::<EnvelopeView, CodecError>(e),
{
    lemma_names_differ();
    let f0 = fields_of(e);
    let f1 = f0.drop_first();
    let f2 = f1.drop_first();
    let f3 = f2.drop_first();
    assert(f1[0] == f0[1]);
    assert(f2[0] == f0[2]);
    assert(f3[0] == f0[3]);
    assert(lookup(f0, sender_key()) == Some(e.sender));
    assert(lookup(f1, body_key()) == Some(e.body));
    assert(lookup(f0, body_key()) == Some(e.body));
    assert(lookup(f2, sent_at_key()) == Some(e.sent_at));
    assert(lookup(f1, sent_at_key()) == Some(e.sent_at));
    assert(lookup(f0, sent_at_key()) == Some(e.sent_at));
    assert(lookup(f3, kind_key()) == Some(kind_name(e.kind)));
    assert(lookup(f2, kind_key()) == Some(kind_name(e.kind)));
    assert(lookup(f1, kind_key()) == Some(kind_name(e.kind)));
    assert(lookup(f0, kind_key()) == Some(kind_name(e.kind)));
    assert(kind_named(kind_name(e.kind)) == Some(e.kind));
}

/// Whether the JSON reader finds in the object written for `fields` as many
/// members as were written, and under every name the value written under it.
pub open spec fn reads_back(fields: Seq<(Seq<char>, Seq<char>)>) -> bool {
    json_string_fields(object_text(fields)) matches Some(read) && read.len() == fields.len()
        && forall|key: Seq<char>| lookup(read, key) == #[trigger] lookup(fields, key)
}

/// Round trip over the wire, as far as it rests on this crate: wherever the
/// JSON reader reads back the members that the JSON writer wrote for an
/// envelope, decoding the text of the envelope gives the envelope again.
pub proof fn law_wire_round_trip(e: EnvelopeView)
    ensures
        reads_back(fields_of(e)) ==> envelope_of_text(wire_text(e)) == Ok::<
            EnvelopeView,
            CodecError,
        >(e),
{
    law_record_round_trip(e);
    if reads_back(fields_of(e)) {
        let read = json_string_fields(wire_text(e))->0;
        assert(lookup(read, sender_key()) == lookup(fields_of(e), sender_key()));
        assert(lookup(read, body_key()) == lookup(fields_of(e), body_key()));
        assert(lookup(read, sent_at_key()) == lookup(fields_of(e), sent_at_key()));
        assert(lookup(read, kind_key()) == lookup(fields_of(e), kind_key()));
    }
}

} // verus!
