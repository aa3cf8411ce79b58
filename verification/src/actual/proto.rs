//! The messages of the sync protocol and their encoding.
use prost::DecodeError;
use vstd::prelude::*;
use vstd::slice::slice_subrange;
use vstd::utf8::encode_utf8;

use crate::actual::wire::{
    byte_fields_round_trip, bytes_fault, bytes_field, bytes_field_bytes, close, flag_fault,
    flag_field, flag_field_bytes, flag_fields_round_trip, key, key_fault, located, overrun, passed,
    pushed, put_bytes, put_flag, put_number, put_text, reading_moves_on, skip, skipped, take_bytes,
    take_flag, take_key, take_text, text_fault, text_field, text_field_bytes,
    text_fields_round_trip, varint_bytes, what_is_left_is_the_end,
};
use crate::store::sql::views;

verus! {

// ---------------------------------------------------------------- types -----
/// One edit of one cell.
#[derive(Debug, Clone, PartialEq)]
pub struct Message {
    pub dataset: String,
    pub row: String,
    pub column: String,
    pub value: String,
}

/// The contents of a [`Message`].
pub struct Written {
    pub dataset: Seq<char>,
    pub row: Seq<char>,
    pub column: Seq<char>,
    pub value: Seq<char>,
}

impl View for Message {
    type V = Written;

    open spec fn view(&self) -> Written {
        Written {
            dataset: self.dataset@,
            row: self.row@,
            column: self.column@,
            value: self.value@,
        }
    }
}

/// An edit with its timestamp. The content is itself an encoded [`Message`].
#[derive(Debug, Clone, PartialEq)]
pub struct MessageEnvelope {
    pub timestamp: String,
    pub is_encrypted: bool,
    pub content: Vec<u8>,
}

/// The contents of a [`MessageEnvelope`].
pub struct Sealed {
    pub timestamp: Seq<char>,
    pub is_encrypted: bool,
    pub content: Seq<u8>,
}

impl View for MessageEnvelope {
    type V = Sealed;

    open spec fn view(&self) -> Sealed {
        Sealed {
            timestamp: self.timestamp@,
            is_encrypted: self.is_encrypted,
            content: self.content@,
        }
    }
}

/// What is asked of the server. The fourth tag is reserved and unused.
#[derive(Debug, Clone, PartialEq)]
pub struct SyncRequest {
    pub messages: Vec<MessageEnvelope>,
    pub file_id: String,
    pub group_id: String,
    pub key_id: String,
    pub since: String,
}

/// The contents of a [`SyncRequest`].
pub struct Asked {
    pub messages: Seq<Sealed>,
    pub file_id: Seq<char>,
    pub group_id: Seq<char>,
    pub key_id: Seq<char>,
    pub since: Seq<char>,
}

impl View for SyncRequest {
    type V = Asked;

    open spec fn view(&self) -> Asked {
        Asked {
            messages: views(self.messages@),
            file_id: self.file_id@,
            group_id: self.group_id@,
            key_id: self.key_id@,
            since: self.since@,
        }
    }
}

/// What the server answers.
#[derive(Debug, Clone, PartialEq)]
pub struct SyncResponse {
    pub messages: Vec<MessageEnvelope>,
    pub merkle: String,
}

/// The contents of a [`SyncResponse`].
pub struct Replied {
    pub messages: Seq<Sealed>,
    pub merkle: Seq<char>,
}

impl View for SyncResponse {
    type V = Replied;

    open spec fn view(&self) -> Replied {
        Replied { messages: views(self.messages@), merkle: self.merkle@ }
    }
}

// -------------------------------------------------------------- encoding -----
/// A text under a tag; an empty one is left out.
pub open spec fn text_bytes(tag: nat, text: Seq<char>) -> Seq<u8> {
    if text.len() == 0 {
        Seq::empty()
    } else {
        text_field_bytes(tag, text)
    }
}

/// An edit as bytes.
pub open spec fn message_bytes(m: Written) -> Seq<u8> {
    text_bytes(1, m.dataset) + text_bytes(2, m.row) + text_bytes(3, m.column) + text_bytes(
        4,
        m.value,
    )
}

/// An edit with its timestamp as bytes; what is empty or false is left out.
pub open spec fn envelope_bytes(e: Sealed) -> Seq<u8> {
    text_bytes(1, e.timestamp) + (if e.is_encrypted {
        flag_field_bytes(2, true)
    } else {
        Seq::empty()
    }) + (if e.content.len() == 0 {
        Seq::empty()
    } else {
        bytes_field_bytes(3, e.content)
    })
}

/// Edits under the first tag, one after the other.
pub open spec fn envelopes_bytes(messages: Seq<Sealed>) -> Seq<u8>
    decreases messages.len(),
{
    if messages.len() == 0 {
        Seq::empty()
    } else {
        bytes_field_bytes(1, envelope_bytes(messages[0])) + envelopes_bytes(messages.skip(1))
    }
}

/// A request as bytes.
pub open spec fn request_bytes(r: Asked) -> Seq<u8> {
    envelopes_bytes(r.messages) + text_bytes(2, r.file_id) + text_bytes(3, r.group_id) + text_bytes(
        5,
        r.key_id,
    ) + text_bytes(6, r.since)
}

/// A response as bytes.
pub open spec fn response_bytes(r: Replied) -> Seq<u8> {
    envelopes_bytes(r.messages) + text_bytes(2, r.merkle)
}

fn put_text_if_any(tag: u32, value: &String, out: &mut Vec<u8>)
    requires
        1 <= tag < 0x2000_0000,
    ensures
        final(out)@ == old(out)@ + text_bytes(tag as nat, value@),
{
    if !value.as_str().is_empty() {
        put_text(tag, value, out);
    }
}

fn put_envelopes(messages: &Vec<MessageEnvelope>, out: &mut Vec<u8>)
    ensures
        final(out)@ == old(out)@ + envelopes_bytes(views(messages@)),
{
    let ghost before = out@;
    let ghost all = views(messages@);
    let mut i: usize = 0;
    assert(all.skip(0) =~= all);
    assert(out@ + envelopes_bytes(all.skip(0)) =~= before + envelopes_bytes(all));
    while i < messages.len()
        invariant
            i <= messages@.len(),
            all == views(messages@),
            out@ + envelopes_bytes(all.skip(i as int)) == before + envelopes_bytes(all),
        decreases messages@.len() - i,
    {
        let ghost (now, rest) = (out@, all.skip(i as int));
        assert(rest[0] == messages@[i as int]@);
        assert(rest.skip(1) =~= all.skip(i + 1));
        let one = messages[i].encode_to_vec();
        put_bytes(1, &one, out);
        assert(out@ + envelopes_bytes(all.skip(i + 1)) =~= now + envelopes_bytes(rest));
        i += 1;
    }
    assert(all.skip(i as int) =~= Seq::empty());
    assert(out@ =~= before + envelopes_bytes(all));
}

impl Message {
    pub fn encode_to_vec(&self) -> (r: Vec<u8>)
        ensures
            r@ == message_bytes(self@),
    {
        let mut out: Vec<u8> = Vec::new();
        put_text_if_any(1, &self.dataset, &mut out);
        put_text_if_any(2, &self.row, &mut out);
        put_text_if_any(3, &self.column, &mut out);
        put_text_if_any(4, &self.value, &mut out);
        assert(out@ =~= message_bytes(self@));
        out
    }
}

impl MessageEnvelope {
    pub fn encode_to_vec(&self) -> (r: Vec<u8>)
        ensures
            r@ == envelope_bytes(self@),
    {
        let mut out: Vec<u8> = Vec::new();
        put_text_if_any(1, &self.timestamp, &mut out);
        if self.is_encrypted {
            put_flag(2, true, &mut out);
        }
        if self.content.len() > 0 {
            put_bytes(3, &self.content, &mut out);
        }
        assert(out@ =~= envelope_bytes(self@));
        out
    }
}

impl SyncRequest {
    pub fn encode_to_vec(&self) -> (r: Vec<u8>)
        ensures
            r@ == request_bytes(self@),
    {
        let mut out: Vec<u8> = Vec::new();
        put_envelopes(&self.messages, &mut out);
        put_text_if_any(2, &self.file_id, &mut out);
        put_text_if_any(3, &self.group_id, &mut out);
        put_text_if_any(5, &self.key_id, &mut out);
        put_text_if_any(6, &self.since, &mut out);
        assert(out@ =~= request_bytes(self@));
        out
    }
}

impl SyncResponse {
    pub fn encode_to_vec(&self) -> (r: Vec<u8>)
        ensures
            r@ == response_bytes(self@),
    {
        let mut out: Vec<u8> = Vec::new();
        put_envelopes(&self.messages, &mut out);
        put_text_if_any(2, &self.merkle, &mut out);
        assert(out@ =~= response_bytes(self@));
        out
    }
}

// -------------------------------------------------------------- decoding -----
/// What was read of a field, or the error that names the message and the field.
pub open spec fn placed<T>(
    found: Option<T>,
    fault: DecodeError,
    message: Seq<char>,
    field: Seq<char>,
) -> Result<T, DecodeError> {
    match found {
        Some(value) => Ok(value),
        None => Err(pushed(fault, message, field)),
    }
}

/// The bytes behind a field that a message does not know.
pub open spec fn unknown(tag: nat, wire: nat, bytes: Seq<u8>) -> Result<Seq<u8>, DecodeError> {
    passed(wire, bytes, skipped(wire, tag, bytes))
}

/// A group with this tag and these contents, its end among them, as the only
/// field of another group: what follows the key of that other group.
pub open spec fn one_group_deeper(tag: nat, bytes: Seq<u8>) -> Seq<u8> {
    varint_bytes(tag * 8 + 3) + bytes + varint_bytes(12)
}

/// The bytes behind a field that a message inside another message does not
/// know. Groups may nest only so deep, and the outer message counts: a group
/// must also pass where it stands one group deeper.
pub open spec fn unknown_inside(tag: nat, wire: nat, bytes: Seq<u8>) -> Result<
    Seq<u8>,
    DecodeError,
> {
    match unknown(tag, wire, bytes) {
        Err(e) => Err(e),
        Ok(rest) => if wire == 3 {
            match unknown(1, 3, one_group_deeper(tag, bytes.take(bytes.len() - rest.len()))) {
                Ok(_) => Ok(rest),
                Err(e) => Err(e),
            }
        } else {
            Ok(rest)
        },
    }
}

/// The name of a field of an edit.
pub open spec fn message_part(tag: nat) -> Seq<char> {
    if tag == 1 {
        "dataset"@
    } else if tag == 2 {
        "row"@
    } else if tag == 3 {
        "column"@
    } else {
        "value"@
    }
}

/// An edit with one more field read into it, and the bytes behind that field.
pub open spec fn message_field(m: Written, tag: nat, wire: nat, bytes: Seq<u8>) -> Result<
    (Written, Seq<u8>),
    DecodeError,
> {
    if 1 <= tag <= 4 {
        match placed(
            text_field(wire, bytes),
            text_fault(wire, bytes),
            "Message"@,
            message_part(tag),
        ) {
            Ok((text, rest)) => Ok(
                (
                    if tag == 1 {
                        Written { dataset: text, ..m }
                    } else if tag == 2 {
                        Written { row: text, ..m }
                    } else if tag == 3 {
                        Written { column: text, ..m }
                    } else {
                        Written { value: text, ..m }
                    },
                    rest,
                ),
            ),
            Err(e) => Err(e),
        }
    } else {
        match unknown(tag, wire, bytes) {
            Ok(rest) => Ok((m, rest)),
            Err(e) => Err(e),
        }
    }
}

/// An edit with one more field read into it, and the bytes behind that field.
/// `inside` says whether the envelope stands inside another message.
pub open spec fn envelope_field(
    e: Sealed,
    tag: nat,
    wire: nat,
    bytes: Seq<u8>,
    inside: bool,
) -> Result<(Sealed, Seq<u8>), DecodeError> {
    if tag == 1 {
        match placed(
            text_field(wire, bytes),
            text_fault(wire, bytes),
            "MessageEnvelope"@,
            "timestamp"@,
        ) {
            Ok((timestamp, rest)) => Ok((Sealed { timestamp, ..e }, rest)),
            Err(fault) => Err(fault),
        }
    } else if tag == 2 {
        match placed(
            flag_field(wire, bytes),
            flag_fault(wire, bytes),
            "MessageEnvelope"@,
            "is_encrypted"@,
        ) {
            Ok((is_encrypted, rest)) => Ok((Sealed { is_encrypted, ..e }, rest)),
            Err(fault) => Err(fault),
        }
    } else if tag == 3 {
        match placed(
            bytes_field(wire, bytes),
            bytes_fault(wire, bytes),
            "MessageEnvelope"@,
            "content"@,
        ) {
            Ok((content, rest)) => Ok((Sealed { content, ..e }, rest)),
            Err(fault) => Err(fault),
        }
    } else {
        match (if inside {
            unknown_inside(tag, wire, bytes)
        } else {
            unknown(tag, wire, bytes)
        }) {
            Ok(rest) => Ok((e, rest)),
            Err(fault) => Err(fault),
        }
    }
}

/// A response with one more field read into it, and the bytes behind that field.
pub open spec fn response_field(r: Replied, tag: nat, wire: nat, bytes: Seq<u8>) -> Result<
    (Replied, Seq<u8>),
    DecodeError,
> {
    if tag == 1 {
        match placed(
            bytes_field(wire, bytes),
            bytes_fault(wire, bytes),
            "SyncResponse"@,
            "messages"@,
        ) {
            Ok((content, rest)) => match envelope_in(
                content + rest,
                rest.len(),
                no_envelope(),
                true,
            ) {
                Ok((e, left)) => if left.len() == rest.len() {
                    Ok((Replied { messages: r.messages.push(e), ..r }, left))
                } else {
                    Err(
                        pushed(
                            overrun(bytes, ((content + rest).len() - left.len()) as nat),
                            "SyncResponse"@,
                            "messages"@,
                        ),
                    )
                },
                Err(fault) => Err(pushed(fault, "SyncResponse"@, "messages"@)),
            },
            Err(fault) => Err(fault),
        }
    } else if tag == 2 {
        match placed(
            text_field(wire, bytes),
            text_fault(wire, bytes),
            "SyncResponse"@,
            "merkle"@,
        ) {
            Ok((merkle, rest)) => Ok((Replied { merkle, ..r }, rest)),
            Err(fault) => Err(fault),
        }
    } else {
        match unknown(tag, wire, bytes) {
            Ok(rest) => Ok((r, rest)),
            Err(fault) => Err(fault),
        }
    }
}

/// The edit of which no field is known.
pub open spec fn no_message() -> Written {
    Written {
        dataset: Seq::empty(),
        row: Seq::empty(),
        column: Seq::empty(),
        value: Seq::empty(),
    }
}

/// The envelope of which no field is known.
pub open spec fn no_envelope() -> Sealed {
    Sealed { timestamp: Seq::empty(), is_encrypted: false, content: Seq::empty() }
}

/// The response of which no field is known.
pub open spec fn no_response() -> Replied {
    Replied { messages: Seq::empty(), merkle: Seq::empty() }
}

/// The edit that results from reading field after field into `m`. Of a field
/// that comes twice the later one counts.
pub open spec fn message_in(bytes: Seq<u8>, m: Written) -> Result<Written, DecodeError>
    decreases bytes.len(),
{
    if bytes.len() == 0 {
        Ok(m)
    } else {
        match key(bytes) {
            None => Err(key_fault(bytes)),
            Some((tag, wire, field)) => match message_field(m, tag, wire, field) {
                Err(e) => Err(e),
                Ok((more, rest)) => if rest.len() < bytes.len() {
                    message_in(rest, more)
                } else {
                    Ok(more)
                },
            },
        }
    }
}

/// The envelope that results from reading field after field into `m` until no
/// more than `end` bytes are left, and those bytes. `inside` says whether it
/// stands inside another message.
pub open spec fn envelope_in(bytes: Seq<u8>, end: nat, m: Sealed, inside: bool) -> Result<
    (Sealed, Seq<u8>),
    DecodeError,
>
    decreases bytes.len(),
{
    if bytes.len() <= end {
        Ok((m, bytes))
    } else {
        match key(bytes) {
            None => Err(key_fault(bytes)),
            Some((tag, wire, field)) => match envelope_field(m, tag, wire, field, inside) {
                Err(e) => Err(e),
                Ok((more, rest)) => if rest.len() < bytes.len() {
                    envelope_in(rest, end, more, inside)
                } else {
                    Ok((more, rest))
                },
            },
        }
    }
}

/// The response that results from reading field after field into `m`.
pub open spec fn response_in(bytes: Seq<u8>, m: Replied) -> Result<Replied, DecodeError>
    decreases bytes.len(),
{
    if bytes.len() == 0 {
        Ok(m)
    } else {
        match key(bytes) {
            None => Err(key_fault(bytes)),
            Some((tag, wire, field)) => match response_field(m, tag, wire, field) {
                Err(e) => Err(e),
                Ok((more, rest)) => if rest.len() < bytes.len() {
                    response_in(rest, more)
                } else {
                    Ok(more)
                },
            },
        }
    }
}

impl Message {
    /// Decodes a message that takes up all the bytes.
    pub fn decode(bytes: &[u8]) -> (r: Result<Message, DecodeError>)
        ensures
            match r {
                Ok(m) => message_in(bytes@, no_message()) == Ok::<Written, DecodeError>(m@),
                Err(e) => message_in(bytes@, no_message()) == Err::<Written, DecodeError>(e),
            },
    {
        let mut m = Message {
            dataset: String::new(),
            row: String::new(),
            column: String::new(),
            value: String::new(),
        };
        let mut bytes_left = bytes;
        assert(m@ == no_message());
        while bytes_left.len() > 0
            invariant
                message_in(bytes@, no_message()) == message_in(bytes_left@, m@),
            decreases bytes_left@.len(),
        {
            proof {
                reading_moves_on(bytes_left@, 10);
            }
            let (tag, wire, field) = match take_key(bytes_left) {
                Ok(found) => found,
                Err(e) => {
                    return Err(e);
                },
            };
            proof {
                reading_moves_on(field@, 10);
            }
            if tag == 1 {
                match take_text(wire, field) {
                    Ok((value, rest)) => {
                        m.dataset = value;
                        bytes_left = rest;
                    },
                    Err(e) => {
                        return Err(located(e, "Message", "dataset"));
                    },
                }
            } else if tag == 2 {
                match take_text(wire, field) {
                    Ok((value, rest)) => {
                        m.row = value;
                        bytes_left = rest;
                    },
                    Err(e) => {
                        return Err(located(e, "Message", "row"));
                    },
                }
            } else if tag == 3 {
                match take_text(wire, field) {
                    Ok((value, rest)) => {
                        m.column = value;
                        bytes_left = rest;
                    },
                    Err(e) => {
                        return Err(located(e, "Message", "column"));
                    },
                }
            } else if tag == 4 {
                match take_text(wire, field) {
                    Ok((value, rest)) => {
                        m.value = value;
                        bytes_left = rest;
                    },
                    Err(e) => {
                        return Err(located(e, "Message", "value"));
                    },
                }
            } else {
                match skip(wire, tag, field) {
                    Ok(rest) => {
                        bytes_left = rest;
                    },
                    Err(e) => {
                        return Err(e);
                    },
                }
            }
        }
        Ok(m)
    }
}

/// Passes a field that a message inside another message does not know.
fn skip_inside<'a>(wire: u8, tag: u32, bytes: &'a [u8]) -> (r: Result<&'a [u8], DecodeError>)
    ensures
        match r {
            Ok(rest) => unknown_inside(tag as nat, wire as nat, bytes@) == Ok::<
                Seq<u8>,
                DecodeError,
            >(rest@),
            Err(e) => unknown_inside(tag as nat, wire as nat, bytes@) == Err::<
                Seq<u8>,
                DecodeError,
            >(e),
        },
{
    let rest = match skip(wire, tag, bytes) {
        Ok(rest) => rest,
        Err(e) => {
            return Err(e);
        },
    };
    if wire != 3 {
        return Ok(rest);
    }
    let taken: usize = bytes.len() - rest.len();
    let mut deeper: Vec<u8> = Vec::new();
    put_number(tag as u64 * 8 + 3, &mut deeper);
    let ghost front = deeper@;
    let mut i: usize = 0;
    assert(deeper@ =~= front + bytes@.take(0));
    while i < taken
        invariant
            i <= taken <= bytes@.len(),
            deeper@ == front + bytes@.take(i as int),
        decreases taken - i,
    {
        deeper.push(bytes[i]);
        assert(bytes@.take(i + 1) =~= bytes@.take(i as int).push(bytes@[i as int]));
        assert(deeper@ =~= front + bytes@.take(i + 1));
        i += 1;
    }
    put_number(12, &mut deeper);
    assert(deeper@ =~= one_group_deeper(tag as nat, bytes@.take(taken as int)));
    match skip(3, 1, deeper.as_slice()) {
        Ok(_) => Ok(rest),
        Err(e) => Err(e),
    }
}

impl MessageEnvelope {
    /// Decodes a message that takes up all the bytes.
    pub fn decode(bytes: &[u8]) -> (r: Result<MessageEnvelope, DecodeError>)
        ensures
            match r {
                Ok(m) => envelope_in(bytes@, 0, no_envelope(), false) == Ok::<
                    (Sealed, Seq<u8>),
                    DecodeError,
                >((m@, Seq::empty())),
                Err(e) => envelope_in(bytes@, 0, no_envelope(), false) == Err::<
                    (Sealed, Seq<u8>),
                    DecodeError,
                >(e),
            },
    {
        match Self::read(bytes, 0, false) {
            Ok((m, left)) => {
                assert(left@ =~= Seq::empty());
                Ok(m)
            },
            Err(e) => Err(e),
        }
    }

    /// Decodes a message field after field until no more than `end` bytes are
    /// left. `inside` says whether it stands inside another message.
    fn read<'a>(bytes: &'a [u8], end: usize, inside: bool) -> (r: Result<
        (MessageEnvelope, &'a [u8]),
        DecodeError,
    >)
        ensures
            match r {
                Ok((m, left)) => left@.len() <= end && envelope_in(
                    bytes@,
                    end as nat,
                    no_envelope(),
                    inside,
                ) == Ok::<(Sealed, Seq<u8>), DecodeError>((m@, left@)),
                Err(e) => envelope_in(bytes@, end as nat, no_envelope(), inside) == Err::<
                    (Sealed, Seq<u8>),
                    DecodeError,
                >(e),
            },
    {
        let mut m = MessageEnvelope {
            timestamp: String::new(),
            is_encrypted: false,
            content: Vec::new(),
        };
        let mut bytes_left = bytes;
        assert(m@ == no_envelope());
        while bytes_left.len() > end
            invariant
                envelope_in(bytes@, end as nat, no_envelope(), inside) == envelope_in(
                    bytes_left@,
                    end as nat,
                    m@,
                    inside,
                ),
            decreases bytes_left@.len(),
        {
            proof {
                reading_moves_on(bytes_left@, 10);
            }
            let (tag, wire, field) = match take_key(bytes_left) {
                Ok(found) => found,
                Err(e) => {
                    return Err(e);
                },
            };
            proof {
                reading_moves_on(field@, 10);
            }
            if tag == 1 {
                match take_text(wire, field) {
                    Ok((value, rest)) => {
                        m.timestamp = value;
                        bytes_left = rest;
                    },
                    Err(e) => {
                        return Err(located(e, "MessageEnvelope", "timestamp"));
                    },
                }
            } else if tag == 2 {
                match take_flag(wire, field) {
                    Ok((value, rest)) => {
                        m.is_encrypted = value;
                        bytes_left = rest;
                    },
                    Err(e) => {
                        return Err(located(e, "MessageEnvelope", "is_encrypted"));
                    },
                }
            } else if tag == 3 {
                match take_bytes(wire, field) {
                    Ok((value, rest)) => {
                        m.content = value;
                        bytes_left = rest;
                    },
                    Err(e) => {
                        return Err(located(e, "MessageEnvelope", "content"));
                    },
                }
            } else {
                let passed = if inside {
                    skip_inside(wire, tag, field)
                } else {
                    skip(wire, tag, field)
                };
                match passed {
                    Ok(rest) => {
                        bytes_left = rest;
                    },
                    Err(e) => {
                        return Err(e);
                    },
                }
            }
        }
        Ok((m, bytes_left))
    }
}

impl SyncResponse {
    /// Decodes a message that takes up all the bytes.
    pub fn decode(bytes: &[u8]) -> (r: Result<SyncResponse, DecodeError>)
        ensures
            match r {
                Ok(m) => response_in(bytes@, no_response()) == Ok::<Replied, DecodeError>(m@),
                Err(e) => response_in(bytes@, no_response()) == Err::<Replied, DecodeError>(e),
            },
    {
        let mut m = SyncResponse { messages: Vec::new(), merkle: String::new() };
        let mut bytes_left = bytes;
        assert(views(m.messages@) =~= Seq::empty());
        assert(m@ == no_response());
        while bytes_left.len() > 0
            invariant
                response_in(bytes@, no_response()) == response_in(bytes_left@, m@),
            decreases bytes_left@.len(),
        {
            proof {
                reading_moves_on(bytes_left@, 10);
            }
            let (tag, wire, field) = match take_key(bytes_left) {
                Ok(found) => found,
                Err(e) => {
                    return Err(e);
                },
            };
            proof {
                reading_moves_on(field@, 10);
            }
            if tag == 1 {
                match take_bytes(wire, field) {
                    Ok((value, rest)) => {
                        let length: usize = value.len() + rest.len();
                        let start = slice_subrange(field, field.len() - length, field.len());
                        proof {
                            what_is_left_is_the_end(field@, 10);
                            assert(start@ =~= value@ + rest@);
                        }
                        let (one, left) = match MessageEnvelope::read(start, rest.len(), true) {
                            Ok(found) => found,
                            Err(e) => {
                                return Err(located(e, "SyncResponse", "messages"));
                            },
                        };
                        if value.len() > 0 {
                            match close(field, length - left.len()) {
                                Ok(_) => {},
                                Err(e) => {
                                    return Err(located(e, "SyncResponse", "messages"));
                                },
                            }
                        }
                        let ghost (earlier, v) = (views(m.messages@), one@);
                        m.messages.push(one);
                        assert(views(m.messages@) =~= earlier.push(v));
                        bytes_left = left;
                    },
                    Err(e) => {
                        return Err(located(e, "SyncResponse", "messages"));
                    },
                }
            } else if tag == 2 {
                match take_text(wire, field) {
                    Ok((value, rest)) => {
                        m.merkle = value;
                        bytes_left = rest;
                    },
                    Err(e) => {
                        return Err(located(e, "SyncResponse", "merkle"));
                    },
                }
            } else {
                match skip(wire, tag, field) {
                    Ok(rest) => {
                        bytes_left = rest;
                    },
                    Err(e) => {
                        return Err(e);
                    },
                }
            }
        }
        Ok(m)
    }
}

// ----------------------------------------------------------------- laws -----
/// A text whose length in bytes fits a machine word.
pub open spec fn short(text: Seq<char>) -> bool {
    encode_utf8(text).len() <= u64::MAX
}

/// An edit whose texts fit.
pub open spec fn short_message(m: Written) -> bool {
    short(m.dataset) && short(m.row) && short(m.column) && short(m.value)
}

/// An envelope whose parts fit.
pub open spec fn short_envelope(e: Sealed) -> bool {
    short(e.timestamp) && e.content.len() <= u64::MAX && envelope_bytes(e).len() <= u64::MAX
}

/// An edit that was encoded decodes to itself.
pub proof fn messages_round_trip(m: Written)
    requires
        short_message(m),
    ensures
        message_in(message_bytes(m), no_message()) == Ok::<Written, DecodeError>(m),
{
    let (a, b, c, d) = (
        text_bytes(1, m.dataset),
        text_bytes(2, m.row),
        text_bytes(3, m.column),
        text_bytes(4, m.value),
    );
    let m0 = no_message();
    let m1 = Written { dataset: m.dataset, ..m0 };
    let m2 = Written { row: m.row, ..m1 };
    let m3 = Written { column: m.column, ..m2 };
    assert(message_bytes(m) =~= a + (b + (c + (d + Seq::<u8>::empty()))));
    reads_message_text(m0, m1, 1, m.dataset, b + (c + (d + Seq::<u8>::empty())));
    reads_message_text(m1, m2, 2, m.row, c + (d + Seq::<u8>::empty()));
    reads_message_text(m2, m3, 3, m.column, d + Seq::<u8>::empty());
    reads_message_text(m3, m, 4, m.value, Seq::empty());
}

proof fn reads_message_text(
    before: Written,
    after: Written,
    tag: nat,
    text: Seq<char>,
    behind: Seq<u8>,
)
    requires
        short(text),
        1 <= tag <= 4,
        tag == 1 ==> after == (Written { dataset: text, ..before }) && before.dataset.len() == 0,
        tag == 2 ==> after == (Written { row: text, ..before }) && before.row.len() == 0,
        tag == 3 ==> after == (Written { column: text, ..before }) && before.column.len() == 0,
        tag == 4 ==> after == (Written { value: text, ..before }) && before.value.len() == 0,
    ensures
        message_in(text_bytes(tag, text) + behind, before) == message_in(behind, after),
{
    let all = text_bytes(tag, text) + behind;
    if text.len() == 0 {
        assert(text =~= Seq::empty());
        assert(before.dataset =~= Seq::empty() || tag != 1);
        assert(before.row =~= Seq::empty() || tag != 2);
        assert(before.column =~= Seq::empty() || tag != 3);
        assert(before.value =~= Seq::empty() || tag != 4);
        assert(all =~= behind);
        assert(before == after);
    } else {
        text_fields_round_trip(tag, text, behind);
        reading_moves_on(all, 10);
        let (_, wire, field) = key(all)->0;
        reading_moves_on(field, 10);
        assert(message_field(before, tag, wire, field) == Ok::<(Written, Seq<u8>), DecodeError>(
            (after, behind),
        ));
    }
}

/// The flag of an envelope as bytes.
spec fn encryption_bytes(is_encrypted: bool) -> Seq<u8> {
    if is_encrypted {
        flag_field_bytes(2, true)
    } else {
        Seq::empty()
    }
}

/// The content of an envelope as bytes.
spec fn content_bytes(content: Seq<u8>) -> Seq<u8> {
    if content.len() == 0 {
        Seq::empty()
    } else {
        bytes_field_bytes(3, content)
    }
}

/// An envelope that was encoded decodes to itself, whatever stands behind it,
/// inside another message or not.
pub proof fn envelopes_round_trip(e: Sealed, behind: Seq<u8>, inside: bool)
    requires
        short_envelope(e),
    ensures
        envelope_in(envelope_bytes(e) + behind, behind.len(), no_envelope(), inside) == Ok::<
            (Sealed, Seq<u8>),
            DecodeError,
        >((e, behind)),
{
    let e0 = no_envelope();
    let e1 = Sealed { timestamp: e.timestamp, ..e0 };
    let e2 = Sealed { is_encrypted: e.is_encrypted, ..e1 };
    let (flag, content) = (encryption_bytes(e.is_encrypted), content_bytes(e.content));
    let end = behind.len();
    assert(envelope_bytes(e) + behind =~= text_bytes(1, e.timestamp) + (flag + (content + behind)));
    reads_timestamp(e0, e.timestamp, flag + (content + behind), end, inside);
    reads_encryption(e1, e.is_encrypted, content + behind, end, inside);
    reads_content(e2, e.content, behind, end, inside);
    assert(e == Sealed { content: e.content, ..e2 });
}

proof fn reads_timestamp(
    before: Sealed,
    timestamp: Seq<char>,
    behind: Seq<u8>,
    end: nat,
    inside: bool,
)
    requires
        end <= behind.len(),
        short(timestamp),
        before.timestamp.len() == 0,
    ensures
        envelope_in(text_bytes(1, timestamp) + behind, end, before, inside) == envelope_in(
            behind,
            end,
            (Sealed { timestamp, ..before }),
            inside,
        ),
{
    let all = text_bytes(1, timestamp) + behind;
    let after = Sealed { timestamp, ..before };
    if timestamp.len() == 0 {
        assert(all =~= behind);
        assert(before.timestamp =~= timestamp);
    } else {
        text_fields_round_trip(1, timestamp, behind);
        reading_moves_on(all, 10);
        let (_, wire, field) = key(all)->0;
        reading_moves_on(field, 10);
        assert(envelope_field(before, 1, wire, field, inside) == Ok::<
            (Sealed, Seq<u8>),
            DecodeError,
        >((after, behind)));
    }
}

proof fn reads_encryption(
    before: Sealed,
    is_encrypted: bool,
    behind: Seq<u8>,
    end: nat,
    inside: bool,
)
    requires
        end <= behind.len(),
        !before.is_encrypted,
    ensures
        envelope_in(encryption_bytes(is_encrypted) + behind, end, before, inside) == envelope_in(
            behind,
            end,
            (Sealed { is_encrypted, ..before }),
            inside,
        ),
{
    let all = encryption_bytes(is_encrypted) + behind;
    let after = Sealed { is_encrypted, ..before };
    if is_encrypted {
        flag_fields_round_trip(2, true, behind);
        reading_moves_on(all, 10);
        let (_, wire, field) = key(all)->0;
        reading_moves_on(field, 10);
        assert(envelope_field(before, 2, wire, field, inside) == Ok::<
            (Sealed, Seq<u8>),
            DecodeError,
        >((after, behind)));
    } else {
        assert(all =~= behind);
    }
}

proof fn reads_content(
    before: Sealed,
    content: Seq<u8>,
    behind: Seq<u8>,
    end: nat,
    inside: bool,
)
    requires
        end <= behind.len(),
        content.len() <= u64::MAX,
        before.content.len() == 0,
    ensures
        envelope_in(content_bytes(content) + behind, end, before, inside) == envelope_in(
            behind,
            end,
            (Sealed { content, ..before }),
            inside,
        ),
{
    let all = content_bytes(content) + behind;
    let after = Sealed { content, ..before };
    if content.len() == 0 {
        assert(all =~= behind);
        assert(before.content =~= content);
    } else {
        byte_fields_round_trip(3, content, behind);
        reading_moves_on(all, 10);
        let (_, wire, field) = key(all)->0;
        reading_moves_on(field, 10);
        assert(envelope_field(before, 3, wire, field, inside) == Ok::<
            (Sealed, Seq<u8>),
            DecodeError,
        >((after, behind)));
    }
}

/// A response that was encoded decodes to itself.
pub proof fn responses_round_trip(r: Replied)
    requires
        short(r.merkle),
        forall|i: int| 0 <= i < r.messages.len() ==> short_envelope(#[trigger] r.messages[i]),
    ensures
        response_in(response_bytes(r), no_response()) == Ok::<Replied, DecodeError>(r),
{
    let behind = text_bytes(2, r.merkle);
    let r0 = no_response();
    let r1 = Replied { messages: r.messages, ..r0 };
    reads_envelopes(r0, r.messages, behind);
    assert(r0.messages + r.messages =~= r.messages);
    if r.merkle.len() == 0 {
        assert(r.merkle =~= Seq::empty());
    } else {
        let nothing = Seq::<u8>::empty();
        assert(behind + nothing =~= behind);
        text_fields_round_trip(2, r.merkle, nothing);
        reading_moves_on(behind, 10);
        let (_, wire, field) = key(behind)->0;
        reading_moves_on(field, 10);
        assert(response_field(r1, 2, wire, field) == Ok::<(Replied, Seq<u8>), DecodeError>(
            (r, nothing),
        ));
        assert(response_in(nothing, r) == Ok::<Replied, DecodeError>(r));
    }
}

proof fn reads_one_envelope(r: Replied, e: Sealed, behind: Seq<u8>)
    requires
        short_envelope(e),
    ensures
        response_in(bytes_field_bytes(1, envelope_bytes(e)) + behind, r) == response_in(
            behind,
            (Replied { messages: r.messages.push(e), ..r }),
        ),
{
    let all = bytes_field_bytes(1, envelope_bytes(e)) + behind;
    byte_fields_round_trip(1, envelope_bytes(e), behind);
    envelopes_round_trip(e, behind, true);
    reading_moves_on(all, 10);
    let (_, wire, field) = key(all)->0;
    reading_moves_on(field, 10);
    assert(response_field(r, 1, wire, field) == Ok::<(Replied, Seq<u8>), DecodeError>(
        (Replied { messages: r.messages.push(e), ..r }, behind),
    ));
}

proof fn reads_envelopes(r: Replied, messages: Seq<Sealed>, behind: Seq<u8>)
    requires
        forall|i: int| 0 <= i < messages.len() ==> short_envelope(#[trigger] messages[i]),
    ensures
        response_in(envelopes_bytes(messages) + behind, r) == response_in(
            behind,
            (Replied { messages: r.messages + messages, ..r }),
        ),
    decreases messages.len(),
{
    let all = envelopes_bytes(messages) + behind;
    if messages.len() == 0 {
        assert(all =~= behind);
        assert(r.messages + messages =~= r.messages);
    } else {
        let e = messages[0];
        let rest = messages.skip(1);
        let more = Replied { messages: r.messages.push(e), ..r };
        assert(short_envelope(messages[0]));
        assert(all =~= bytes_field_bytes(1, envelope_bytes(e)) + (envelopes_bytes(rest) + behind));
        reads_one_envelope(r, e, envelopes_bytes(rest) + behind);
        assert forall|i: int| 0 <= i < rest.len() implies short_envelope(#[trigger] rest[i]) by {
            assert(rest[i] == messages[i + 1]);
        }
        reads_envelopes(more, rest, behind);
        assert(more.messages + rest =~= r.messages + messages);
    }
}

/// What some bytes hold where every field in them is a text: tag by tag.
pub open spec fn texts_in(bytes: Seq<u8>) -> Option<Seq<(nat, Seq<char>)>>
    decreases bytes.len(),
{
    if bytes.len() == 0 {
        Some(Seq::empty())
    } else {
        match key(bytes) {
            None => None,
            Some((tag, wire, field)) => match text_field(wire, field) {
                None => None,
                Some((text, rest)) => if rest.len() < bytes.len() {
                    match texts_in(rest) {
                        Some(more) => Some(seq![(tag, text)] + more),
                        None => None,
                    }
                } else {
                    None
                },
            },
        }
    }
}

/// A text under a tag, where there is any.
pub open spec fn tagged(tag: nat, text: Seq<char>) -> Seq<(nat, Seq<char>)> {
    if text.len() == 0 {
        Seq::empty()
    } else {
        seq![(tag, text)]
    }
}

/// The bytes of a request with no edits in it hold four texts at most and
/// nothing else: which budget it is about, and where to go on.
pub proof fn a_request_without_edits_holds_only_its_texts(r: Asked)
    requires
        r.messages.len() == 0,
        short(r.file_id),
        short(r.group_id),
        short(r.key_id),
        short(r.since),
    ensures
        texts_in(request_bytes(r)) == Some(
            tagged(2, r.file_id) + tagged(3, r.group_id) + tagged(5, r.key_id) + tagged(6, r.since),
        ),
{
    let (a, b, c, d) = (
        text_bytes(2, r.file_id),
        text_bytes(3, r.group_id),
        text_bytes(5, r.key_id),
        text_bytes(6, r.since),
    );
    let nothing = Seq::<u8>::empty();
    assert(request_bytes(r) =~= a + (b + (c + (d + nothing))));
    reads_a_text(6, r.since, nothing);
    reads_a_text(5, r.key_id, d + nothing);
    reads_a_text(3, r.group_id, c + (d + nothing));
    reads_a_text(2, r.file_id, b + (c + (d + nothing)));
    assert(texts_in(request_bytes(r))->0 =~= tagged(2, r.file_id) + tagged(3, r.group_id) + tagged(
        5,
        r.key_id,
    ) + tagged(6, r.since));
}

proof fn reads_a_text(tag: nat, text: Seq<char>, behind: Seq<u8>)
    requires
        short(text),
        1 <= tag < 0x2000_0000,
    ensures
        texts_in(text_bytes(tag, text) + behind) == match texts_in(behind) {
            Some(more) => Some(tagged(tag, text) + more),
            None => None,
        },
{
    let all = text_bytes(tag, text) + behind;
    if text.len() == 0 {
        assert(all =~= behind);
        if let Some(more) = texts_in(behind) {
            assert(tagged(tag, text) + more =~= more);
        }
    } else {
        text_fields_round_trip(tag, text, behind);
        reading_moves_on(all, 10);
        let (_, _, field) = key(all)->0;
        reading_moves_on(field, 10);
    }
}

/// A field of an edit sets the part that its number stands for and no other, in
/// whatever order the fields come: of two with the same number the later counts,
/// and one with an unknown number is passed over.
pub proof fn a_field_sets_its_part(m: Written, tag: nat, text: Seq<char>, behind: Seq<u8>)
    requires
        1 <= tag < 0x2000_0000,
        short(text),
    ensures
        message_in(text_field_bytes(tag, text) + behind, m) == message_in(
            behind,
            (Written {
                dataset: if tag == 1 {
                    text
                } else {
                    m.dataset
                },
                row: if tag == 2 {
                    text
                } else {
                    m.row
                },
                column: if tag == 3 {
                    text
                } else {
                    m.column
                },
                value: if tag == 4 {
                    text
                } else {
                    m.value
                },
            }),
        ),
{
    let all = text_field_bytes(tag, text) + behind;
    text_fields_round_trip(tag, text, behind);
    reading_moves_on(all, 10);
    let (_, wire, field) = key(all)->0;
    reading_moves_on(field, 10);
    byte_fields_round_trip(tag, encode_utf8(text), behind);
}

/// The parts of an envelope likewise: its time, whether it is encrypted, and
/// its content.
pub proof fn a_field_sets_its_part_of_an_envelope(
    e: Sealed,
    inside: bool,
    end: nat,
    text: Seq<char>,
    yes: bool,
    content: Seq<u8>,
    other: nat,
    behind: Seq<u8>,
)
    requires
        end <= behind.len(),
        short(text),
        content.len() <= u64::MAX,
        4 <= other < 0x2000_0000,
    ensures
        envelope_in(text_field_bytes(1, text) + behind, end, e, inside) == envelope_in(
            behind,
            end,
            (Sealed { timestamp: text, ..e }),
            inside,
        ),
        envelope_in(flag_field_bytes(2, yes) + behind, end, e, inside) == envelope_in(
            behind,
            end,
            (Sealed { is_encrypted: yes, ..e }),
            inside,
        ),
        envelope_in(bytes_field_bytes(3, content) + behind, end, e, inside) == envelope_in(
            behind,
            end,
            (Sealed { content, ..e }),
            inside,
        ),
        envelope_in(bytes_field_bytes(other, content) + behind, end, e, inside) == envelope_in(
            behind,
            end,
            e,
            inside,
        ),
{
    let a = text_field_bytes(1, text) + behind;
    text_fields_round_trip(1, text, behind);
    reading_moves_on(a, 10);
    let (_, _, field) = key(a)->0;
    reading_moves_on(field, 10);
    byte_fields_round_trip(1, encode_utf8(text), behind);
    let b = flag_field_bytes(2, yes) + behind;
    flag_fields_round_trip(2, yes, behind);
    reading_moves_on(b, 10);
    let (_, _, field) = key(b)->0;
    reading_moves_on(field, 10);
    let c = bytes_field_bytes(3, content) + behind;
    byte_fields_round_trip(3, content, behind);
    reading_moves_on(c, 10);
    let (_, _, field) = key(c)->0;
    reading_moves_on(field, 10);
    let d = bytes_field_bytes(other, content) + behind;
    byte_fields_round_trip(other, content, behind);
    reading_moves_on(d, 10);
    let (_, _, field) = key(d)->0;
    reading_moves_on(field, 10);
}

/// A response gathers its envelopes in the order they come in, and passes over
/// what it does not know.
pub proof fn a_response_gathers_its_envelopes(
    r: Replied,
    e: Sealed,
    text: Seq<char>,
    other: nat,
    behind: Seq<u8>,
)
    requires
        short_envelope(e),
        short(text),
        3 <= other < 0x2000_0000,
    ensures
        response_in(bytes_field_bytes(1, envelope_bytes(e)) + behind, r) == response_in(
            behind,
            (Replied { messages: r.messages.push(e), ..r }),
        ),
        response_in(text_field_bytes(2, text) + behind, r) == response_in(
            behind,
            (Replied { merkle: text, ..r }),
        ),
        response_in(text_field_bytes(other, text) + behind, r) == response_in(behind, r),
{
    reads_one_envelope(r, e, behind);
    let a = text_field_bytes(2, text) + behind;
    text_fields_round_trip(2, text, behind);
    reading_moves_on(a, 10);
    let (_, _, field) = key(a)->0;
    reading_moves_on(field, 10);
    let b = text_field_bytes(other, text) + behind;
    text_fields_round_trip(other, text, behind);
    byte_fields_round_trip(other, encode_utf8(text), behind);
    reading_moves_on(b, 10);
    let (_, _, field) = key(b)->0;
    reading_moves_on(field, 10);
}

} // verus!
