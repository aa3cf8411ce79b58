use std::cell::Cell;

use actual_mcp::actual::error::ActualError;
use actual_mcp::actual::messages::{decode_response, CrdtValue, ZERO_CLOCK};
use actual_mcp::actual::number::Number;
use actual_mcp::actual::proto::{Message, MessageEnvelope, SyncResponse};
use actual_mcp::text::less;

fn number(text: &str) -> Result<u64, String> {
    text.parse::<f64>().map(f64::to_bits).map_err(|e| e.to_string())
}

fn num(n: f64) -> CrdtValue {
    CrdtValue::Num(Number::from_bits(n.to_bits()))
}

const TS: &str = "2026-09-06T20:45:09.463Z-0001-9b548650683a3f7d";
const TS2: &str = "2026-09-06T20:45:09.463Z-0002-9b548650683a3f7d";

/// An envelope carrying a properly encoded inner Message.
fn envelope(
    timestamp: &str,
    dataset: &str,
    column: &str,
    value: &str,
) -> MessageEnvelope {
    let inner = Message {
        dataset: dataset.to_string(),
        row: "row-1".to_string(),
        column: column.to_string(),
        value: value.to_string(),
    };
    MessageEnvelope {
        timestamp: timestamp.to_string(),
        is_encrypted: false,
        content: inner.encode_to_vec(),
    }
}

fn wire(messages: Vec<MessageEnvelope>) -> Vec<u8> {
    SyncResponse {
        messages,
        merkle: "{}".to_string(),
    }
    .encode_to_vec()
}

/// Unwrap a BadMessage so tests can assert on *which* message failed and why.
fn bad_message(err: ActualError) -> (String, String) {
    match err {
        ActualError::BadMessage { timestamp, reason } => (timestamp, reason),
        other => panic!("expected BadMessage, got {other:?}"),
    }
}

// ---- decode_response ----

#[test]
fn decodes_multiple_messages() {
    let bytes = wire(vec![
        envelope(TS, "transactions", "amount", "N:-94300"),
        envelope(TS2, "transactions", "notes", "S:coffee"),
    ]);

    let msgs = decode_response(&bytes, &number).expect("should decode");

    assert_eq!(msgs.len(), 2);
    assert_eq!(msgs[0].timestamp, TS);
    assert_eq!(msgs[0].dataset, "transactions");
    assert_eq!(msgs[0].column, "amount");
    assert_eq!(msgs[0].value, num(-94300.0));
    assert_eq!(msgs[1].value, CrdtValue::Str("coffee".to_string()));
}

/// The steady state: nothing new since `since`. Must not be an error.
///
/// This is also what a *wrong group id* returns, because the server creates
/// an empty group database rather than failing — so a live test needs to
/// assert count > 0 to tell the two apart.
#[test]
fn empty_response_is_ok() {
    let msgs = decode_response(&wire(vec![]), &number).expect("empty response is valid");
    assert!(msgs.is_empty());
}

#[test]
fn null_values_decode() {
    let bytes = wire(vec![envelope(TS, "transactions", "category", "0:")]);
    let msgs = decode_response(&bytes, &number).unwrap();
    assert_eq!(msgs[0].value, CrdtValue::Null);
}

#[test]
fn encrypted_message_is_rejected() {
    let mut env = envelope(TS, "transactions", "amount", "N:1");
    env.is_encrypted = true;

    let (timestamp, reason) = bad_message(decode_response(&wire(vec![env]), &number).unwrap_err());
    assert_eq!(timestamp, TS, "the failing message must be identifiable");
    assert!(reason.contains("encrypted"), "got {reason:?}");
}

#[test]
fn garbage_content_is_rejected() {
    let env = MessageEnvelope {
        timestamp: TS.to_string(),
        is_encrypted: false,
        // not a valid encoded Message: field 1 claims 200 bytes that aren't there
        content: vec![0x0a, 0xc8, 0x01, 0x00],
    };

    let (timestamp, reason) = bad_message(decode_response(&wire(vec![env]), &number).unwrap_err());
    assert_eq!(timestamp, TS);
    assert!(reason.contains("not a valid message"), "got {reason:?}");
}

#[test]
fn unknown_value_prefix_is_rejected() {
    let bytes = wire(vec![envelope(TS, "transactions", "amount", "X:whatever")]);

    let (timestamp, reason) = bad_message(decode_response(&bytes, &number).unwrap_err());
    assert_eq!(timestamp, TS);
    assert!(reason.contains("unknown"), "got {reason:?}");
    assert!(
        reason.contains("X:whatever"),
        "reason should quote the value: {reason:?}"
    );
}

/// A failure anywhere aborts the batch: a partially applied set of CRDT
/// messages would leave the replica in a state no clock describes.
#[test]
fn one_bad_message_fails_the_batch() {
    let bytes = wire(vec![
        envelope(TS, "transactions", "amount", "N:1"),
        envelope(TS2, "transactions", "amount", "X:bad"),
    ]);
    assert!(decode_response(&bytes, &number).is_err());
}

#[test]
fn truncated_response_is_rejected() {
    let bytes = wire(vec![envelope(TS, "transactions", "amount", "N:1")]);
    let truncated = &bytes[..bytes.len() - 1];

    match decode_response(truncated, &number) {
        Err(ActualError::BadSyncResponse(_)) => {}
        other => panic!("expected BadSyncResponse, got {other:?}"),
    }
}

// ---- CrdtValue::parse ----

#[test]
fn parses_each_value_tag() {
    assert_eq!(
        CrdtValue::parse("S:hello", &number),
        Ok(CrdtValue::Str("hello".into()))
    );
    assert_eq!(CrdtValue::parse("N:-94300", &number), Ok(num(-94300.0)));
    assert_eq!(CrdtValue::parse("0:", &number), Ok(CrdtValue::Null));
}

#[test]
fn empty_string_value_is_a_valid_string() {
    assert_eq!(CrdtValue::parse("S:", &number), Ok(CrdtValue::Str(String::new())));
}

#[test]
fn non_numeric_number_is_rejected() {
    let reason = CrdtValue::parse("N:notanumber", &number).unwrap_err();
    assert!(reason.contains("N: prefix"), "got {reason:?}");
}

/// Short inputs must not panic — this is why `parse` uses `strip_prefix`
/// rather than slicing `&raw[2..]`.
#[test]
fn short_inputs_do_not_panic() {
    assert!(CrdtValue::parse("", &number).is_err());
    assert!(CrdtValue::parse("S", &number).is_err());
    assert!(CrdtValue::parse("0", &number).is_err());
}

/// Actual's JS reader switches on the first character only, so it would
/// read "Sfoo" as "oo". We require the colon; corruption should not decode.
#[test]
fn missing_colon_is_rejected() {
    assert!(CrdtValue::parse("Sfoo", &number).is_err());
}

#[test]
fn reasons_quote_the_value() {
    assert_eq!(
        CrdtValue::parse("X:\"q\"", &number),
        Err("unknown prefix value in \"X:\\\"q\\\"\"".to_string())
    );
    assert_eq!(
        CrdtValue::parse("N:", &number),
        Err("\"N:\" has an N: prefix but cannot parse float from empty string".to_string())
    );
}

#[test]
fn null_takes_nothing_behind_its_tag() {
    assert!(CrdtValue::parse("0:x", &number).is_err());
    assert_eq!(CrdtValue::parse("S:0:", &number), Ok(CrdtValue::Str("0:".to_string())));
    assert_eq!(CrdtValue::parse("N:1e3", &number), Ok(num(1000.0)));
}

#[test]
fn the_first_bad_message_is_the_one_that_is_blamed() {
    let bytes = wire(vec![
        envelope(TS, "transactions", "amount", "X:bad"),
        envelope(TS2, "transactions", "amount", "X:worse"),
    ]);
    let (timestamp, reason) = bad_message(decode_response(&bytes, &number).unwrap_err());
    assert_eq!(timestamp, TS);
    assert!(reason.contains("X:bad"), "got {reason:?}");
}

#[test]
fn an_unusable_message_says_which_and_why() {
    let bytes = wire(vec![envelope(TS, "transactions", "amount", "X:bad")]);
    let message = decode_response(&bytes, &number).unwrap_err().message();
    assert_eq!(
        message,
        format!("sync message {TS} is unusable: unknown prefix value in \"X:bad\"")
    );
    let garbage = decode_response(&[0xff], &number).unwrap_err();
    assert_eq!(garbage.message(), "could not decode the sync response");
}

#[test]
fn the_zero_clock_comes_before_every_timestamp() {
    let first = "1970-01-01T00:00:00.000Z-0000-0000000000000001";
    for later in [TS, TS2, first, "1970-10-01T00:00:00.000Z-0000-0000000000000000"] {
        assert!(less(ZERO_CLOCK, later), "{later}");
        assert!(!less(later, ZERO_CLOCK), "{later}");
    }
    assert!(!less(ZERO_CLOCK, ZERO_CLOCK));
}

#[test]
fn each_number_is_read_as_it_is_answered() {
    let asked = Cell::new(0);
    let count = |_: &str| {
        asked.set(asked.get() + 1);
        if asked.get() < 3 { Ok(asked.get()) } else { Err("enough".to_string()) }
    };
    let bytes = wire(vec![
        envelope(TS, "transactions", "amount", "N:7"),
        envelope(TS, "transactions", "notes", "S:7"),
        envelope(TS2, "transactions", "amount", "N:7"),
    ]);
    let got = decode_response(&bytes, &count).unwrap();
    assert_eq!(got[0].value, CrdtValue::Num(Number::from_bits(1)));
    assert_eq!(got[1].value, CrdtValue::Str("7".to_string()));
    assert_eq!(got[2].value, CrdtValue::Num(Number::from_bits(2)));
    let (_, reason) = bad_message(decode_response(&bytes, &count).unwrap_err());
    assert_eq!(reason, "\"N:7\" has an N: prefix but enough");
}

#[test]
fn only_numbers_are_read_as_numbers() {
    let never = |text: &str| -> Result<u64, String> { panic!("asked for {text}") };
    assert_eq!(CrdtValue::parse("S:7", &never).unwrap(), CrdtValue::Str("7".to_string()));
    assert_eq!(CrdtValue::parse("0:", &never).unwrap(), CrdtValue::Null);
    assert!(CrdtValue::parse("X:7", &never).is_err());
    let sealed = MessageEnvelope { is_encrypted: true, ..envelope(TS, "t", "c", "N:7") };
    assert!(decode_response(&wire(vec![sealed]), &never).is_err());
}
