//! Edits as the server sends them, and what they say.
use prost::DecodeError;
use vstd::prelude::*;

use crate::actual::error::ActualError;
use crate::actual::number::Number;
use crate::actual::proto::{
    message_bytes, message_in, messages_round_trip, no_message, no_response, response_in,
    short_message, Message, MessageEnvelope, Replied, Sealed, SyncResponse, Written,
};
use crate::actual::wire::{show, shown};
use crate::store::sql::views;
use crate::text::{
    a_difference_decides, chars_of, digits_value, first_difference, is_digit, quote, quoted,
    text_less, text_of,
};

verus! {

/// The epoch-zero clock. The server compares `since` as a plain string
/// (`WHERE timestamp > ?`), so this sorts before every real message and
/// returns the full backlog.
pub const ZERO_CLOCK: &'static str = "1970-01-01T00:00:00.000Z-0000-0000000000000000";

/// One edit of one cell, at a time.
#[derive(Debug, Clone, PartialEq)]
pub struct SyncMessage {
    pub timestamp: String,
    pub dataset: String,
    pub row: String,
    pub column: String,
    pub value: CrdtValue,
}

/// What an edit puts into a cell.
#[derive(Debug, Clone, PartialEq)]
pub enum CrdtValue {
    Str(String),
    Num(Number),
    Null,
}

/// The contents of a [`SyncMessage`].
pub struct Edit {
    pub timestamp: Seq<char>,
    pub dataset: Seq<char>,
    pub row: Seq<char>,
    pub column: Seq<char>,
    pub value: Datum,
}

/// The contents of a [`CrdtValue`]; a number by its bits.
pub enum Datum {
    Str(Seq<char>),
    Num(u64),
    Null,
}

impl View for SyncMessage {
    type V = Edit;

    open spec fn view(&self) -> Edit {
        Edit {
            timestamp: self.timestamp@,
            dataset: self.dataset@,
            row: self.row@,
            column: self.column@,
            value: self.value@,
        }
    }
}

impl View for CrdtValue {
    type V = Datum;

    open spec fn view(&self) -> Datum {
        match self {
            CrdtValue::Str(s) => Datum::Str(s@),
            CrdtValue::Num(n) => Datum::Num(n.bits),
            CrdtValue::Null => Datum::Null,
        }
    }
}

// ---------------------------------------------------------------- values -----
/// What a text says as a number of double precision, by its bits, or why it
/// says none.
pub type Numerals = spec_fn(Seq<char>) -> Result<u64, Seq<char>>;

/// `number` reads numbers the way `numerals` says.
pub open spec fn reads<N: Fn(&str) -> Result<u64, String>>(number: N, numerals: Numerals) -> bool {
    forall|text: &str, r: Result<u64, String>| #[trigger]
        call_ensures(number, (text,), r) ==> match r {
            Ok(bits) => numerals(text@) == Ok::<u64, Seq<char>>(bits),
            Err(reason) => numerals(text@) == Err::<u64, Seq<char>>(reason@),
        }
}

/// `number` was asked what this text says, and answered as `numerals` says.
pub open spec fn heard<N: Fn(&str) -> Result<u64, String>>(
    number: N,
    text: Seq<char>,
    numerals: Numerals,
) -> bool {
    exists|asked: &str, r: Result<u64, String>| #[trigger]
        call_ensures(number, (asked,), r) && asked@ == text && match r {
            Ok(bits) => numerals(text) == Ok::<u64, Seq<char>>(bits),
            Err(reason) => numerals(text) == Err::<u64, Seq<char>>(reason@),
        }
}

/// A text that starts with a tag of two characters.
pub open spec fn tagged(raw: Seq<char>, tag: char) -> bool {
    raw.len() >= 2 && raw[0] == tag && raw[1] == ':'
}

/// The value that a text says, or why it says none. Values carry a tag of two
/// characters: `S:` string, `N:` number, `0:` null.
pub open spec fn crdt_value(raw: Seq<char>, numerals: Numerals) -> Result<Datum, Seq<char>> {
    if tagged(raw, 'S') {
        Ok(Datum::Str(raw.skip(2)))
    } else if tagged(raw, 'N') {
        match numerals(raw.skip(2)) {
            Ok(bits) => Ok(Datum::Num(bits)),
            Err(reason) => Err(quoted(raw) + " has an N: prefix but "@ + reason),
        }
    } else if tagged(raw, '0') && raw.len() == 2 {
        Ok(Datum::Null)
    } else {
        Err("unknown prefix value in "@ + quoted(raw))
    }
}

/// `number` was asked what a value says, and answered as `numerals` says, where
/// that has to be asked: of a number.
pub open spec fn value_heard<N: Fn(&str) -> Result<u64, String>>(
    number: N,
    raw: Seq<char>,
    numerals: Numerals,
) -> bool {
    tagged(raw, 'N') ==> heard(number, raw.skip(2), numerals)
}

impl CrdtValue {
    /// Actual serializes CRDT values with a two-character type tag:
    /// `S:` string, `N:` number, `0:` null.
    /// See `serializeValue` in loot-core's `server/sync/index.ts`
    ///
    /// `number` reads a number of double precision and returns its bits.
    /// Returns the reason on failure. The caller attaches the timestamp.
    pub fn parse<N: Fn(&str) -> Result<u64, String>>(raw: &str, number: &N) -> (r: Result<
        Self,
        String,
    >)
        requires
            forall|text: &str| call_requires(*number, (text,)),
        ensures
            exists|numerals: Numerals| #[trigger]
                value_heard(*number, raw@, numerals) && match r {
                    Ok(value) => crdt_value(raw@, numerals) == Ok::<Datum, Seq<char>>(value@),
                    Err(reason) => crdt_value(raw@, numerals) == Err::<Datum, Seq<char>>(reason@),
                },
            forall|numerals: Numerals| #[trigger]
                reads(*number, numerals) ==> match r {
                    Ok(value) => crdt_value(raw@, numerals) == Ok::<Datum, Seq<char>>(value@),
                    Err(reason) => crdt_value(raw@, numerals) == Err::<Datum, Seq<char>>(reason@),
                },
    {
        let ghost any: Numerals = |text: Seq<char>| arbitrary();
        let chars = chars_of(raw);
        if chars.len() >= 2 && chars[1] == ':' {
            let rest = text_of(&chars, 2, chars.len());
            assert(rest@ =~= raw@.skip(2));
            if chars[0] == 'S' {
                assert(value_heard(*number, raw@, any));
                return Ok(CrdtValue::Str(rest));
            }
            if chars[0] == 'N' {
                let said = number(rest.as_str());
                let ghost answer: Numerals = |text: Seq<char>|
                    match said {
                        Ok(bits) => Ok(bits),
                        Err(reason) => Err(reason@),
                    };
                assert(heard(*number, rest@, answer));
                assert(value_heard(*number, raw@, answer));
                return match said {
                    Ok(bits) => Ok(CrdtValue::Num(Number { bits })),
                    Err(e) => {
                        let mut reason = quote(raw);
                        reason.append(" has an N: prefix but ");
                        reason.append(e.as_str());
                        Err(reason)
                    },
                };
            }
            if chars[0] == '0' && chars.len() == 2 {
                assert(value_heard(*number, raw@, any));
                return Ok(CrdtValue::Null);
            }
        }
        assert(value_heard(*number, raw@, any));
        let mut reason = String::new();
        reason.append("unknown prefix value in ");
        reason.append(quote(raw).as_str());
        assert(reason@ =~= "unknown prefix value in "@ + quoted(raw@));
        Err(reason)
    }
}

// -------------------------------------------------------------- envelopes -----
/// The error names this message and gives this reason.
pub open spec fn blames(e: ActualError, at: Seq<char>, why: Seq<char>) -> bool {
    e matches ActualError::BadMessage { timestamp, reason } && timestamp@ == at && reason@ == why
}

/// An envelope that can be used.
pub open spec fn usable(e: Sealed, numerals: Numerals) -> bool {
    &&& !e.is_encrypted
    &&& message_in(e.content, no_message()) matches Ok(inner) && crdt_value(
        inner.value,
        numerals,
    ) is Ok
}

/// The edit in an envelope that can be used.
pub open spec fn edit_in(e: Sealed, numerals: Numerals) -> Edit {
    let inner = message_in(e.content, no_message())->Ok_0;
    Edit {
        timestamp: e.timestamp,
        dataset: inner.dataset,
        row: inner.row,
        column: inner.column,
        value: crdt_value(inner.value, numerals)->Ok_0,
    }
}

/// The error that an envelope calls for that cannot be used. What is wrong with
/// content that does not decode is said in the decoder's own words.
pub open spec fn fault(e: Sealed, numerals: Numerals, r: ActualError) -> bool {
    if e.is_encrypted {
        blames(r, e.timestamp, "message is encrypted, encrypted budgets are not supported"@)
    } else {
        match message_in(e.content, no_message()) {
            Err(d) => blames(r, e.timestamp, "content is not a valid message: "@ + shown(d)),
            Ok(inner) => match crdt_value(inner.value, numerals) {
                Err(reason) => blames(r, e.timestamp, reason),
                Ok(_) => false,
            },
        }
    }
}

/// `number` was asked what the value in an envelope says, and answered as
/// `numerals` says, where that has to be asked.
pub open spec fn envelope_heard<N: Fn(&str) -> Result<u64, String>>(
    number: N,
    e: Sealed,
    numerals: Numerals,
) -> bool {
    match message_in(e.content, no_message()) {
        Ok(inner) => !e.is_encrypted ==> value_heard(number, inner.value, numerals),
        Err(_) => true,
    }
}

/// This is the edit in an envelope that can be used, given what `number`
/// answered.
pub open spec fn opens<N: Fn(&str) -> Result<u64, String>>(number: N, e: Sealed, m: Edit) -> bool {
    exists|numerals: Numerals| #[trigger]
        envelope_heard(number, e, numerals) && usable(e, numerals) && m == edit_in(e, numerals)
}

/// This is the error that an envelope calls for that cannot be used, given what
/// `number` answered.
pub open spec fn fails<N: Fn(&str) -> Result<u64, String>>(
    number: N,
    e: Sealed,
    r: ActualError,
) -> bool {
    exists|numerals: Numerals| #[trigger]
        envelope_heard(number, e, numerals) && !usable(e, numerals) && fault(e, numerals, r)
}

fn decode_envelope<N: Fn(&str) -> Result<u64, String>>(
    envelope: &MessageEnvelope,
    number: &N,
) -> (r: Result<SyncMessage, ActualError>)
    requires
        forall|text: &str| call_requires(*number, (text,)),
    ensures
        match r {
            Ok(message) => opens(*number, envelope@, message@),
            Err(e) => fails(*number, envelope@, e),
        },
        forall|numerals: Numerals| #[trigger]
            reads(*number, numerals) ==> match r {
                Ok(message) => usable(envelope@, numerals) && message@ == edit_in(
                    envelope@,
                    numerals,
                ),
                Err(e) => !usable(envelope@, numerals) && fault(envelope@, numerals, e),
            },
{
    let ghost any: Numerals = |text: Seq<char>| arbitrary();
    // Not to be expected: `select` rejects encrypted budgets up front.
    if envelope.is_encrypted {
        assert(envelope_heard(*number, envelope@, any));
        return Err(
            ActualError::BadMessage {
                timestamp: envelope.timestamp.clone(),
                reason:
                    "message is encrypted, encrypted budgets are not supported".to_owned(),
            },
        );
    }
    // The double decode: the content is itself an encoded message.

    let inner = match Message::decode(envelope.content.as_slice()) {
        Ok(inner) => inner,
        Err(d) => {
            assert(envelope_heard(*number, envelope@, any));
            let mut reason = String::new();
            reason.append("content is not a valid message: ");
            reason.append(show(&d).as_str());
            assert(reason@ =~= "content is not a valid message: "@ + shown(d));
            return Err(
                ActualError::BadMessage { timestamp: envelope.timestamp.clone(), reason },
            );
        },
    };
    let parsed = CrdtValue::parse(inner.value.as_str(), number);
    proof {
        let numerals = choose|numerals: Numerals| #[trigger]
            value_heard(*number, inner.value@, numerals) && match parsed {
                Ok(value) => crdt_value(inner.value@, numerals) == Ok::<Datum, Seq<char>>(value@),
                Err(reason) => crdt_value(inner.value@, numerals) == Err::<Datum, Seq<char>>(
                    reason@,
                ),
            };
        assert(envelope_heard(*number, envelope@, numerals));
    }
    match parsed {
        Ok(value) => Ok(
            SyncMessage {
                timestamp: envelope.timestamp.clone(),
                dataset: inner.dataset,
                row: inner.row,
                column: inner.column,
                value,
            },
        ),
        Err(reason) => Err(
            ActualError::BadMessage { timestamp: envelope.timestamp.clone(), reason },
        ),
    }
}

/// A batch can be used where every envelope can.
pub open spec fn all_usable(envelopes: Seq<Sealed>, numerals: Numerals) -> bool {
    forall|i: int| 0 <= i < envelopes.len() ==> usable(#[trigger] envelopes[i], numerals)
}

/// The edits of a batch that can be used.
pub open spec fn edits_in(envelopes: Seq<Sealed>, numerals: Numerals) -> Seq<Edit> {
    envelopes.map_values(|e: Sealed| edit_in(e, numerals))
}

/// The error is that of the first envelope that cannot be used.
pub open spec fn first_fault(envelopes: Seq<Sealed>, numerals: Numerals, r: ActualError) -> bool {
    exists|i: int|
        0 <= i < envelopes.len() && !usable(#[trigger] envelopes[i], numerals) && fault(
            envelopes[i],
            numerals,
            r,
        ) && all_usable(envelopes.take(i), numerals)
}

/// These are the edits of a batch that can be used, given what `number`
/// answered.
pub open spec fn all_open<N: Fn(&str) -> Result<u64, String>>(
    number: N,
    envelopes: Seq<Sealed>,
    edits: Seq<Edit>,
) -> bool {
    &&& edits.len() == envelopes.len()
    &&& forall|i: int|
        0 <= i < envelopes.len() ==> opens(number, #[trigger] envelopes[i], edits[i])
}

/// The envelopes before one can be used, and the error is that of this one,
/// given what `number` answered.
pub open spec fn fails_at<N: Fn(&str) -> Result<u64, String>>(
    number: N,
    envelopes: Seq<Sealed>,
    earlier: Seq<Edit>,
    r: ActualError,
) -> bool {
    let i = earlier.len() as int;
    i < envelopes.len() && all_open(number, envelopes.take(i), earlier) && fails(
        number,
        envelopes[i],
        r,
    )
}

/// The error is that of the first envelope that cannot be used, given what
/// `number` answered.
pub open spec fn fails_first<N: Fn(&str) -> Result<u64, String>>(
    number: N,
    envelopes: Seq<Sealed>,
    r: ActualError,
) -> bool {
    exists|earlier: Seq<Edit>| #[trigger] fails_at(number, envelopes, earlier, r)
}

/// Functional core: turn the raw protobuf body of a `/sync/sync` response into
/// domain messages. Pure, so every branch can be tested. A failure anywhere
/// fails the batch: a partially applied set of messages would leave the replica
/// in a state no clock describes.
pub fn decode_response<N: Fn(&str) -> Result<u64, String>>(bytes: &[u8], number: &N) -> (r: Result<
    Vec<SyncMessage>,
    ActualError,
>)
    requires
        forall|text: &str| call_requires(*number, (text,)),
    ensures
        match response_in(bytes@, no_response()) {
            Err(e) => r == Err::<Vec<SyncMessage>, ActualError>(ActualError::BadSyncResponse(e)),
            Ok(reply) => match r {
                Ok(messages) => all_open(*number, reply.messages, views(messages@)),
                Err(e) => fails_first(*number, reply.messages, e),
            },
        },
        response_in(bytes@, no_response()) matches Ok(reply) ==> forall|numerals: Numerals|
            #[trigger]
            reads(*number, numerals) ==> match r {
                Ok(messages) => all_usable(reply.messages, numerals) && views(messages@)
                    == edits_in(reply.messages, numerals),
                Err(e) => first_fault(reply.messages, numerals, e),
            },
{
    let response = match SyncResponse::decode(bytes) {
        Ok(response) => response,
        Err(e) => {
            return Err(ActualError::BadSyncResponse(e));
        },
    };
    let ghost sealed = views(response.messages@);
    let mut messages: Vec<SyncMessage> = Vec::new();
    let mut i: usize = 0;
    while i < response.messages.len()
        invariant
            i <= response.messages@.len(),
            sealed == views(response.messages@),
            response_in(bytes@, no_response()) == Ok::<Replied, DecodeError>(response@),
            messages@.len() == i,
            forall|text: &str| call_requires(*number, (text,)),
            all_open(*number, sealed.take(i as int), views(messages@)),
            forall|numerals: Numerals| #[trigger]
                reads(*number, numerals) ==> all_usable(sealed.take(i as int), numerals) && views(
                    messages@,
                ) == edits_in(sealed.take(i as int), numerals),
        decreases response.messages@.len() - i,
    {
        assert(sealed[i as int] == response.messages@[i as int]@);
        match decode_envelope(&response.messages[i], number) {
            Ok(message) => {
                let ghost (earlier, v) = (views(messages@), message@);
                messages.push(message);
                assert(views(messages@) =~= earlier.push(v));
                assert forall|k: int| 0 <= k < i + 1 implies opens(
                    *number,
                    #[trigger] sealed.take(i + 1)[k],
                    views(messages@)[k],
                ) by {
                    if k < i {
                        assert(sealed.take(i as int)[k] == sealed.take(i + 1)[k]);
                    }
                }
                assert forall|numerals: Numerals| #[trigger]
                    reads(*number, numerals) implies all_usable(sealed.take(i + 1), numerals)
                    && views(messages@) == edits_in(sealed.take(i + 1), numerals) by {
                    let upto = sealed.take(i + 1);
                    assert forall|k: int| 0 <= k < upto.len() implies usable(
                        #[trigger] upto[k],
                        numerals,
                    ) by {
                        if k < i {
                            assert(sealed.take(i as int)[k] == upto[k]);
                        }
                    }
                    assert(views(messages@) =~= edits_in(upto, numerals));
                }
            },
            Err(e) => {
                assert(fails_at(*number, sealed, views(messages@), e));
                assert(fails_first(*number, sealed, e));
                assert forall|numerals: Numerals| #[trigger]
                    reads(*number, numerals) implies first_fault(sealed, numerals, e) by {
                    assert(!usable(sealed[i as int], numerals));
                }
                return Err(e);
            },
        }
        i += 1;
    }
    assert(sealed.take(i as int) =~= sealed);
    Ok(messages)
}

// ----------------------------------------------------------------- laws -----
/// One message that cannot be used fails the batch, wherever it stands.
pub proof fn one_bad_message_fails_the_batch(envelopes: Seq<Sealed>, numerals: Numerals, i: int)
    requires
        0 <= i < envelopes.len(),
        !usable(envelopes[i], numerals),
    ensures
        !all_usable(envelopes, numerals),
{
}

/// An encrypted message can never be used.
pub proof fn encrypted_messages_are_never_usable(e: Sealed, numerals: Numerals)
    requires
        e.is_encrypted,
    ensures
        !usable(e, numerals),
{
}

/// A tagged value says what stands behind its tag, for every text and every
/// numeral; two characters are the shortest value there is.
pub proof fn tags_tell_values_apart(text: Seq<char>, numerals: Numerals)
    ensures
        crdt_value(seq!['S', ':'] + text, numerals) == Ok::<Datum, Seq<char>>(Datum::Str(text)),
        numerals(text) matches Ok(bits) ==> crdt_value(seq!['N', ':'] + text, numerals) == Ok::<
            Datum,
            Seq<char>,
        >(Datum::Num(bits)),
        numerals(text) is Err ==> crdt_value(seq!['N', ':'] + text, numerals) is Err,
        crdt_value(seq!['0', ':'], numerals) == Ok::<Datum, Seq<char>>(Datum::Null),
        text.len() < 2 ==> crdt_value(text, numerals) is Err,
{
    assert((seq!['S', ':'] + text).skip(2) =~= text);
    assert((seq!['N', ':'] + text).skip(2) =~= text);
}

/// A timestamp as Actual writes it, `2026-09-06T20:45:09.463Z-0001-9b548650683a3f7d`:
/// a moment, a counter and the name of a device, at fixed places.
pub open spec fn is_timestamp(t: Seq<char>) -> bool {
    &&& t.len() == 46
    &&& forall|i: int| 0 <= i < 46 ==> if apart(i) {
        #[trigger] t[i] == ZERO_CLOCK@[i]
    } else if i < 23 {
        is_digit(t[i])
    } else {
        is_digit(t[i]) || 'a' <= t[i] <= 'f' || 'A' <= t[i] <= 'F'
    }
}

/// The places of a timestamp that tell its parts apart.
pub open spec fn apart(i: int) -> bool {
    i == 4 || i == 7 || i == 10 || i == 13 || i == 16 || i == 19 || i == 23 || i == 24 || i == 29
}

/// The epoch-zero clock comes before every other timestamp since 1970, so
/// asking from there brings the full backlog.
pub proof fn the_zero_clock_comes_first(t: Seq<char>)
    requires
        is_timestamp(t),
        digits_value(t.subrange(0, 4)) >= 1970,
        digits_value(t.subrange(5, 7)) >= 1,
        digits_value(t.subrange(8, 10)) >= 1,
    ensures
        is_timestamp(ZERO_CLOCK@),
        t == ZERO_CLOCK@ || text_less(ZERO_CLOCK@, t),
{
    let zero = ZERO_CLOCK@;
    reveal_strlit("1970-01-01T00:00:00.000Z-0000-0000000000000000");
    assert(zero.len() == 46);
    if t != zero {
        let i = first_difference(zero, t, 0);
        let (year, month, day) = (t.subrange(0, 4), t.subrange(5, 7), t.subrange(8, 10));
        reveal_with_fuel(digits_value, 5);
        assert(year.drop_last().drop_last().drop_last().drop_last() =~= Seq::empty());
        assert(month.drop_last().drop_last() =~= Seq::empty());
        assert(day.drop_last().drop_last() =~= Seq::empty());
        assert(year[0] == t[0] && year[1] == t[1] && year[2] == t[2] && year[3] == t[3]);
        assert(month[0] == t[5] && month[1] == t[6]);
        assert(day[0] == t[8] && day[1] == t[9]);
        assert(zero[i] < t[i]);
        a_difference_decides(zero, t, i);
    }
}

/// A value without a tag says nothing.
pub proof fn a_value_needs_its_tag(raw: Seq<char>, numerals: Numerals)
    requires
        forall|text: Seq<char>| raw != seq!['S', ':'] + text,
        forall|text: Seq<char>| raw != seq!['N', ':'] + text,
        raw != seq!['0', ':'],
    ensures
        crdt_value(raw, numerals) is Err,
{
    if raw.len() >= 2 {
        let text = raw.skip(2);
        assert(raw =~= seq![raw[0], raw[1]] + text);
        assert(raw != seq!['S', ':'] + text);
        assert(raw != seq!['N', ':'] + text);
        if raw.len() == 2 {
            assert(raw =~= seq![raw[0], raw[1]]);
        }
    }
}

/// An envelope that is not encrypted carries its edit: the time is the
/// envelope's, and the table, the row, the column and the value are those of the
/// message inside. Where the value says nothing, the error names the message by
/// its time.
pub proof fn an_envelope_carries_its_edit(
    e: Sealed,
    m: Written,
    numerals: Numerals,
    error: ActualError,
)
    requires
        short_message(m),
        e.content == message_bytes(m),
    ensures
        !e.is_encrypted ==> (usable(e, numerals) <==> crdt_value(m.value, numerals) is Ok),
        usable(e, numerals) ==> {
            let edit = edit_in(e, numerals);
            &&& edit.timestamp == e.timestamp
            &&& edit.dataset == m.dataset
            &&& edit.row == m.row
            &&& edit.column == m.column
            &&& crdt_value(m.value, numerals) == Ok::<Datum, Seq<char>>(edit.value)
        },
        fault(e, numerals, error) ==> !usable(e, numerals),
        fault(e, numerals, error) ==> (error matches ActualError::BadMessage { timestamp, .. }
            && timestamp@ == e.timestamp),
{
    messages_round_trip(m);
}

/// A batch that can be used gives one edit for each of its envelopes, in order.
pub proof fn every_envelope_gives_its_edit(envelopes: Seq<Sealed>, numerals: Numerals)
    ensures
        edits_in(envelopes, numerals).len() == envelopes.len(),
        forall|i: int|
            0 <= i < envelopes.len() ==> (#[trigger] edits_in(envelopes, numerals)[i]).timestamp
                == envelopes[i].timestamp,
        all_usable(envelopes, numerals) <==> forall|i: int|
            0 <= i < envelopes.len() ==> usable(#[trigger] envelopes[i], numerals),
{
}

/// A response is decoded whole or not at all: one edit for each of its envelopes,
/// in order, or the fault of the first envelope that cannot be used.
pub proof fn a_response_is_decoded_whole<N: Fn(&str) -> Result<u64, String>>(
    bytes: &[u8],
    number: &N,
    numerals: Numerals,
    reply: Replied,
    r: Result<Vec<SyncMessage>, ActualError>,
)
    requires
        call_ensures(decode_response::<N>, (bytes, number), r),
        reads(*number, numerals),
        response_in(bytes@, no_response()) == Ok::<Replied, DecodeError>(reply),
    ensures
        r is Ok <==> forall|i: int|
            0 <= i < reply.messages.len() ==> usable(#[trigger] reply.messages[i], numerals),
        r matches Ok(messages) ==> messages@.len() == reply.messages.len() && forall|i: int|
            0 <= i < messages@.len() ==> (#[trigger] messages@[i])@ == edit_in(
                reply.messages[i],
                numerals,
            ),
        r matches Err(e) ==> (e matches ActualError::BadMessage { timestamp, .. } && exists|i: int|
            0 <= i < reply.messages.len() && !usable(#[trigger] reply.messages[i], numerals)
                && reply.messages[i].timestamp == timestamp@ && forall|j: int|
                0 <= j < i ==> usable(#[trigger] reply.messages[j], numerals)),
{
    match r {
        Ok(messages) => {
            let edits = edits_in(reply.messages, numerals);
            assert(views(messages@) == edits);
            assert(views(messages@).len() == messages@.len());
            assert forall|i: int| 0 <= i < messages@.len() implies (#[trigger] messages@[i])@
                == edit_in(reply.messages[i], numerals) by {
                assert(views(messages@)[i] == messages@[i]@);
                assert(edits[i] == edit_in(reply.messages[i], numerals));
            }
        },
        Err(e) => {
            assert(first_fault(reply.messages, numerals, e));
            let i = choose|i: int|
                0 <= i < reply.messages.len() && !usable(#[trigger] reply.messages[i], numerals)
                    && fault(reply.messages[i], numerals, e) && all_usable(
                    reply.messages.take(i),
                    numerals,
                );
            let before = reply.messages.take(i);
            assert forall|j: int| 0 <= j < i implies usable(
                #[trigger] reply.messages[j],
                numerals,
            ) by {
                assert(usable(before[j], numerals));
            }
            assert(!usable(reply.messages[i], numerals));
        },
    }
}

} // verus!
