//! The Protobuf wire format: keys, and the three kinds of field in use.
use prost::encoding::{DecodeContext, WireType};
use prost::DecodeError;
use vstd::prelude::*;
use vstd::slice::slice_subrange;
use vstd::utf8::{
    decode_utf8, encode_utf8, encode_utf8_decode_utf8, encode_utf8_valid_utf8, valid_utf8,
};

verus! {

/// Why bytes are no Protobuf message.
#[verifier::external_type_specification]
#[verifier::external_body]
pub struct ExDecodeError(DecodeError);

/// The text that a decoding error shows as.
pub uninterp spec fn shown(e: DecodeError) -> Seq<char>;

/// `DecodeError`'s `Display`: the text depends on the error alone.
#[verifier::external_body]
pub(crate) fn show(e: &DecodeError) -> (r: String)
    ensures
        r@ == shown(*e),
{
    format!("{e}")
}

/// A decoding error with the message and the field in which decoding failed.
pub uninterp spec fn pushed(e: DecodeError, message: Seq<char>, field: Seq<char>) -> DecodeError;

/// `DecodeError::push`: names the message and the field in which decoding
/// failed. What comes of it depends on the error and the two names alone.
#[verifier::external_body]
pub(crate) fn located(e: DecodeError, message: &'static str, field: &'static str) -> (r: DecodeError)
    ensures
        r == pushed(e, message@, field@),
{
    let mut e = e;
    e.push(message, field);
    e
}

// --------------------------------------------------------------- reading -----
/// The number at the start of some bytes, and the bytes behind it: groups of
/// seven bits, the lowest first, at most `most` of them. The last possible byte
/// has room for one bit.
pub open spec fn varint(bytes: Seq<u8>, most: nat) -> Option<(nat, Seq<u8>)>
    decreases most,
{
    if most == 0 || bytes.len() == 0 {
        None
    } else if bytes[0] < 0x80 {
        if most == 1 && bytes[0] >= 2 {
            None
        } else {
            Some((bytes[0] as nat, bytes.skip(1)))
        }
    } else {
        match varint(bytes.skip(1), (most - 1) as nat) {
            Some((high, rest)) => Some(((high * 128 + (bytes[0] - 0x80)) as nat, rest)),
            None => None,
        }
    }
}

/// The tag and the wire type at the start of some bytes, and the bytes behind.
pub open spec fn key(bytes: Seq<u8>) -> Option<(nat, nat, Seq<u8>)> {
    match varint(bytes, 10) {
        Some((n, rest)) => if n <= u32::MAX && n % 8 <= 5 && n / 8 >= 1 {
            Some((n / 8, n % 8, rest))
        } else {
            None
        },
        None => None,
    }
}

/// A length, that many bytes, and the bytes behind them.
pub open spec fn chunk(bytes: Seq<u8>) -> Option<(Seq<u8>, Seq<u8>)> {
    match varint(bytes, 10) {
        Some((n, rest)) => if n <= rest.len() {
            Some((rest.take(n as int), rest.skip(n as int)))
        } else {
            None
        },
        None => None,
    }
}

/// The bytes that a field of this wire type holds, and the bytes behind it.
pub open spec fn bytes_field(wire: nat, bytes: Seq<u8>) -> Option<(Seq<u8>, Seq<u8>)> {
    if wire == 2 {
        chunk(bytes)
    } else {
        None
    }
}

/// The text that a field of this wire type holds, and the bytes behind it.
pub open spec fn text_field(wire: nat, bytes: Seq<u8>) -> Option<(Seq<char>, Seq<u8>)> {
    match bytes_field(wire, bytes) {
        Some((content, rest)) => if valid_utf8(content) {
            Some((decode_utf8(content), rest))
        } else {
            None
        },
        None => None,
    }
}

/// The yes or no that a field of this wire type holds, and the bytes behind it.
pub open spec fn flag_field(wire: nat, bytes: Seq<u8>) -> Option<(bool, Seq<u8>)> {
    if wire == 0 {
        match varint(bytes, 10) {
            Some((n, rest)) => Some((n != 0, rest)),
            None => None,
        }
    } else {
        None
    }
}

/// How many bytes a field that nobody reads takes up, or why it is none.
pub uninterp spec fn skipped(wire: nat, tag: nat, bytes: Seq<u8>) -> Result<nat, DecodeError>;

/// The bytes behind a field of this wire type that nobody reads, or why there
/// is no such field. Where a group ends, `found` says.
pub open spec fn passed(wire: nat, bytes: Seq<u8>, found: Result<nat, DecodeError>) -> Result<
    Seq<u8>,
    DecodeError,
> {
    match behind(wire, bytes, found) {
        Some(rest) => Ok(rest),
        None => Err(found->Err_0),
    }
}

/// The bytes behind a field of this wire type that nobody reads.
pub open spec fn behind(wire: nat, bytes: Seq<u8>, found: Result<nat, DecodeError>) -> Option<
    Seq<u8>,
> {
    if wire == 0 {
        match varint(bytes, 10) {
            Some((_, rest)) => Some(rest),
            None => None,
        }
    } else if wire == 1 {
        after(bytes, 8)
    } else if wire == 2 {
        match chunk(bytes) {
            Some((_, rest)) => Some(rest),
            None => None,
        }
    } else if wire == 3 {
        match found {
            Ok(n) => after(bytes, n),
            Err(_) => None,
        }
    } else if wire == 5 {
        after(bytes, 4)
    } else {
        None
    }
}

/// The bytes behind the first `n`.
pub open spec fn after(bytes: Seq<u8>, n: nat) -> Option<Seq<u8>> {
    if n <= bytes.len() {
        Some(bytes.skip(n as int))
    } else {
        None
    }
}

/// Why there is no key at the start of some bytes.
pub uninterp spec fn key_fault(bytes: Seq<u8>) -> DecodeError;

/// `prost::encoding::decode_key`. The error depends on the bytes alone.
#[verifier::external_body]
pub(crate) fn take_key<'a>(bytes: &'a [u8]) -> (r: Result<(u32, u8, &'a [u8]), DecodeError>)
    ensures
        match r {
            Ok((tag, wire, rest)) => key(bytes@) == Some((tag as nat, wire as nat, rest@)),
            Err(e) => key(bytes@) is None && e == key_fault(bytes@),
        },
{
    let mut buf = bytes;
    let (tag, wire) = prost::encoding::decode_key(&mut buf)?;
    Ok((tag, wire as u8, buf))
}

/// Why a field of this wire type holds no text.
pub uninterp spec fn text_fault(wire: nat, bytes: Seq<u8>) -> DecodeError;

/// `prost::encoding::string::merge` into an empty text. The error depends on the wire type and
/// the bytes alone.
#[verifier::external_body]
pub(crate) fn take_text<'a>(wire: u8, bytes: &'a [u8]) -> (r: Result<
    (String, &'a [u8]),
    DecodeError,
>)
    ensures
        match r {
            Ok((value, rest)) => text_field(wire as nat, bytes@) == Some((value@, rest@)),
            Err(e) => text_field(wire as nat, bytes@) is None && e == text_fault(
                wire as nat,
                bytes@,
            ),
        },
{
    let mut buf = bytes;
    let mut value = String::new();
    let wire = WireType::try_from(u64::from(wire))?;
    prost::encoding::string::merge(wire, &mut value, &mut buf, DecodeContext::default())?;
    Ok((value, buf))
}

/// Why a field of this wire type holds no bytes.
pub uninterp spec fn bytes_fault(wire: nat, bytes: Seq<u8>) -> DecodeError;

/// `prost::encoding::bytes::merge` into an empty vector. The error depends on the wire type and
/// the bytes alone.
#[verifier::external_body]
pub(crate) fn take_bytes<'a>(wire: u8, bytes: &'a [u8]) -> (r: Result<
    (Vec<u8>, &'a [u8]),
    DecodeError,
>)
    ensures
        match r {
            Ok((value, rest)) => bytes_field(wire as nat, bytes@) == Some((value@, rest@)),
            Err(e) => bytes_field(wire as nat, bytes@) is None && e == bytes_fault(
                wire as nat,
                bytes@,
            ),
        },
{
    let mut buf = bytes;
    let mut value: Vec<u8> = Vec::new();
    let wire = WireType::try_from(u64::from(wire))?;
    prost::encoding::bytes::merge(wire, &mut value, &mut buf, DecodeContext::default())?;
    Ok((value, buf))
}

/// Why a field of this wire type holds no yes or no.
pub uninterp spec fn flag_fault(wire: nat, bytes: Seq<u8>) -> DecodeError;

/// `prost::encoding::bool::merge`. The error depends on the wire type and
/// the bytes alone.
#[verifier::external_body]
pub(crate) fn take_flag<'a>(wire: u8, bytes: &'a [u8]) -> (r: Result<(bool, &'a [u8]), DecodeError>)
    ensures
        match r {
            Ok((value, rest)) => flag_field(wire as nat, bytes@) == Some((value, rest@)),
            Err(e) => flag_field(wire as nat, bytes@) is None && e == flag_fault(
                wire as nat,
                bytes@,
            ),
        },
{
    let mut buf = bytes;
    let mut value = false;
    let wire = WireType::try_from(u64::from(wire))?;
    prost::encoding::bool::merge(wire, &mut value, &mut buf, DecodeContext::default())?;
    Ok((value, buf))
}

/// `prost::encoding::skip_field`. How far it gets, or why it fails, depends on
/// the wire type, the tag and the bytes alone. For all but groups it is stated;
/// a group may hold fields and further groups.
#[verifier::external_body]
pub(crate) fn skip<'a>(wire: u8, tag: u32, bytes: &'a [u8]) -> (r: Result<&'a [u8], DecodeError>)
    ensures
        match r {
            Ok(rest) => passed(wire as nat, bytes@, skipped(wire as nat, tag as nat, bytes@))
                == Ok::<Seq<u8>, DecodeError>(rest@),
            Err(e) => passed(wire as nat, bytes@, skipped(wire as nat, tag as nat, bytes@)) == Err::<
                Seq<u8>,
                DecodeError,
            >(e),
        },
{
    let mut buf = bytes;
    let wire = WireType::try_from(u64::from(wire))?;
    prost::encoding::skip_field(wire, tag, &mut buf, DecodeContext::default())?;
    Ok(buf)
}

/// Passes so many bytes.
fn pass(bytes: &mut &[u8], taken: usize) -> (r: Result<(), DecodeError>)
    requires
        taken <= old(bytes)@.len(),
    ensures
        r is Ok,
        final(bytes)@ == old(bytes)@.skip(taken as int),
{
    let all: &[u8] = *bytes;
    let rest = slice_subrange(all, taken, all.len());
    assert(rest@ =~= all@.skip(taken as int));
    *bytes = rest;
    Ok(())
}

/// Why fields that take up this many bytes do not end with the length that
/// stands before them.
pub uninterp spec fn overrun(bytes: Seq<u8>, taken: nat) -> DecodeError;

/// `prost::encoding::merge_loop`, given that what is read behind the length
/// takes up `taken` bytes, no fewer than the length says: it succeeds where they
/// are as many. The error depends on the bytes and that number alone.
#[verifier::external_body]
pub(crate) fn close<'a>(bytes: &'a [u8], taken: usize) -> (r: Result<&'a [u8], DecodeError>)
    requires
        varint(bytes@, 10) matches Some((n, rest)) && 0 < n <= taken <= rest.len(),
    ensures
        match r {
            Ok(left) => varint(bytes@, 10) matches Some((n, rest)) && n == taken && left@
                == rest.skip(taken as int),
            Err(e) => varint(bytes@, 10) matches Some((n, _)) && n != taken && e == overrun(
                bytes@,
                taken as nat,
            ),
        },
{
    let mut buf = bytes;
    prost::encoding::merge_loop(&mut (), &mut buf, DecodeContext::default(), |_, buf, _| {
        pass(buf, taken)
    })?;
    Ok(buf)
}

// --------------------------------------------------------------- writing -----
/// A number in groups of seven bits, the lowest first.
pub open spec fn varint_bytes(n: nat) -> Seq<u8>
    decreases n,
{
    if n < 128 {
        seq![n as u8]
    } else {
        seq![(n % 128 + 128) as u8] + varint_bytes(n / 128)
    }
}

/// A field of bytes.
pub open spec fn bytes_field_bytes(tag: nat, content: Seq<u8>) -> Seq<u8> {
    varint_bytes(tag * 8 + 2) + varint_bytes(content.len()) + content
}

/// A field of text.
pub open spec fn text_field_bytes(tag: nat, text: Seq<char>) -> Seq<u8> {
    bytes_field_bytes(tag, encode_utf8(text))
}

/// A field with a yes or no.
pub open spec fn flag_field_bytes(tag: nat, yes: bool) -> Seq<u8> {
    varint_bytes(tag * 8) + varint_bytes(
        if yes {
            1
        } else {
            0
        },
    )
}

/// `prost::encoding::encode_varint`, which adds a number to what is written.
#[verifier::external_body]
pub(crate) fn put_number(n: u64, out: &mut Vec<u8>)
    ensures
        final(out)@ == old(out)@ + varint_bytes(n as nat),
{
    prost::encoding::encode_varint(n, out)
}

/// `prost::encoding::string::encode`, which adds a field to what is written.
#[verifier::external_body]
pub(crate) fn put_text(tag: u32, value: &String, out: &mut Vec<u8>)
    requires
        1 <= tag < 0x2000_0000,
    ensures
        final(out)@ == old(out)@ + text_field_bytes(tag as nat, value@),
{
    prost::encoding::string::encode(tag, value, out)
}

/// `prost::encoding::bytes::encode`, which adds a field to what is written.
#[verifier::external_body]
pub(crate) fn put_bytes(tag: u32, value: &Vec<u8>, out: &mut Vec<u8>)
    requires
        1 <= tag < 0x2000_0000,
    ensures
        final(out)@ == old(out)@ + bytes_field_bytes(tag as nat, value@),
{
    prost::encoding::bytes::encode(tag, value, out)
}

/// `prost::encoding::bool::encode`, which adds a field to what is written.
#[verifier::external_body]
pub(crate) fn put_flag(tag: u32, value: bool, out: &mut Vec<u8>)
    requires
        1 <= tag < 0x2000_0000,
    ensures
        final(out)@ == old(out)@ + flag_field_bytes(tag as nat, value),
{
    prost::encoding::bool::encode(tag, &value, out)
}

// ----------------------------------------------------------------- laws -----
/// Reading consumes bytes: what is left is shorter.
pub proof fn reading_moves_on(bytes: Seq<u8>, most: nat)
    ensures
        varint(bytes, most) matches Some((_, rest)) ==> rest.len() < bytes.len(),
        key(bytes) matches Some((_, _, rest)) ==> rest.len() < bytes.len(),
        chunk(bytes) matches Some((_, rest)) ==> rest.len() < bytes.len(),
{
    shorter(bytes, most);
    shorter(bytes, 10);
}

proof fn shorter(bytes: Seq<u8>, most: nat)
    ensures
        varint(bytes, most) matches Some((_, rest)) ==> rest.len() < bytes.len(),
    decreases most,
{
    if most > 0 && bytes.len() > 0 && bytes[0] >= 0x80 {
        shorter(bytes.skip(1), (most - 1) as nat);
    }
}

/// What is left behind a number is the end of the bytes.
pub proof fn what_is_left_is_the_end(bytes: Seq<u8>, most: nat)
    ensures
        varint(bytes, most) matches Some((_, rest)) ==> rest == bytes.skip(
            bytes.len() - rest.len(),
        ),
    decreases most,
{
    if most > 0 && bytes.len() > 0 {
        if bytes[0] >= 0x80 {
            what_is_left_is_the_end(bytes.skip(1), (most - 1) as nat);
            shorter(bytes.skip(1), (most - 1) as nat);
        }
        if let Some((_, rest)) = varint(bytes, most) {
            assert(rest =~= bytes.skip(bytes.len() - rest.len()));
        }
    }
}

/// The largest number that fits in so many groups, and one more.
spec fn room(most: nat) -> nat
    decreases most,
{
    if most <= 1 {
        2
    } else {
        room((most - 1) as nat) * 128
    }
}

/// A number that was written is read back, whatever stands behind it.
pub proof fn numbers_round_trip(n: nat, behind: Seq<u8>)
    requires
        n <= u64::MAX,
    ensures
        varint(varint_bytes(n) + behind, 10) == Some((n, behind)),
{
    reveal_with_fuel(room, 10);
    assert(room(10) == 0x1_0000_0000_0000_0000);
    reads_back(n, behind, 10);
}

proof fn reads_back(n: nat, behind: Seq<u8>, most: nat)
    requires
        1 <= most,
        n < room(most),
    ensures
        varint(varint_bytes(n) + behind, most) == Some((n, behind)),
    decreases most,
{
    let all = varint_bytes(n) + behind;
    if n < 128 {
        assert(all[0] == n as u8);
        assert(all.skip(1) =~= behind);
    } else {
        let low = (n % 128 + 128) as u8;
        assert(all[0] == low);
        assert(all.skip(1) =~= varint_bytes(n / 128) + behind);
        reads_back(n / 128, behind, (most - 1) as nat);
    }
}

/// A key that was written is read back.
pub proof fn keys_round_trip(tag: nat, wire: nat, behind: Seq<u8>)
    requires
        1 <= tag < 0x2000_0000,
        wire <= 5,
    ensures
        key(varint_bytes(tag * 8 + wire) + behind) == Some((tag, wire, behind)),
{
    numbers_round_trip(tag * 8 + wire, behind);
}

/// Bytes that were written are read back.
pub proof fn byte_fields_round_trip(tag: nat, content: Seq<u8>, behind: Seq<u8>)
    requires
        1 <= tag < 0x2000_0000,
        content.len() <= u64::MAX,
    ensures
        key(bytes_field_bytes(tag, content) + behind) == Some(
            (tag, 2nat, varint_bytes(content.len()) + content + behind),
        ),
        bytes_field(2, varint_bytes(content.len()) + content + behind) == Some((content, behind)),
{
    let rest = varint_bytes(content.len()) + content + behind;
    assert(bytes_field_bytes(tag, content) + behind =~= varint_bytes(tag * 8 + 2) + rest);
    keys_round_trip(tag, 2, rest);
    assert(rest =~= varint_bytes(content.len()) + (content + behind));
    numbers_round_trip(content.len(), content + behind);
    assert((content + behind).take(content.len() as int) =~= content);
    assert((content + behind).skip(content.len() as int) =~= behind);
}

/// A text that was written is read back.
pub proof fn text_fields_round_trip(tag: nat, text: Seq<char>, behind: Seq<u8>)
    requires
        1 <= tag < 0x2000_0000,
        encode_utf8(text).len() <= u64::MAX,
    ensures
        key(text_field_bytes(tag, text) + behind) == Some(
            (tag, 2nat, varint_bytes(encode_utf8(text).len()) + encode_utf8(text) + behind),
        ),
        text_field(2, varint_bytes(encode_utf8(text).len()) + encode_utf8(text) + behind) == Some(
            (text, behind),
        ),
{
    byte_fields_round_trip(tag, encode_utf8(text), behind);
    encode_utf8_valid_utf8(text);
    encode_utf8_decode_utf8(text);
}

/// A yes or no that was written is read back.
pub proof fn flag_fields_round_trip(tag: nat, yes: bool, behind: Seq<u8>)
    requires
        1 <= tag < 0x2000_0000,
    ensures
        key(flag_field_bytes(tag, yes) + behind) == Some(
            (
                tag,
                0nat,
                varint_bytes(
                    if yes {
                        1
                    } else {
                        0
                    },
                ) + behind,
            ),
        ),
        flag_field(
            0,
            varint_bytes(
                if yes {
                    1
                } else {
                    0
                },
            ) + behind,
        ) == Some((yes, behind)),
{
    let n: nat = if yes {
        1
    } else {
        0
    };
    assert(flag_field_bytes(tag, yes) + behind =~= varint_bytes(tag * 8 + 0) + (varint_bytes(n)
        + behind));
    keys_round_trip(tag, 0, varint_bytes(n) + behind);
    numbers_round_trip(n, behind);
}

} // verus!
