//! The lines of the protocol.
//!
//! Each line consists of fields, separated by *exactly one* space, and is terminated by `\n`.
//! The first field is the id of the request, a `u64` in lowercase hex without `0x` prefix; the
//! following fields are hex-encoded data. A request and its reply have the same format.
use vstd::prelude::*;
use crate::bytes::{
    find, lemma_find_is, lemma_split_on_prefix, lemma_split_on_single, position, slice_views,
    split_on, views,
};
use crate::hexcode::{
    decode_hex, digit_value, encode_hex, hex_decoding, hex_digit, hex_encoding, is_hex,
    law_decode_encode, lemma_digit_value, HexError,
};

verus! {

/// The byte between two fields.
pub const SPACE: u8 = 32;

/// The byte at the end of a line.
pub const NEWLINE: u8 = 10;

/// The byte that may stand before the end of a line.
pub const CARRIAGE_RETURN: u8 = 13;

/// The id `n` in lowercase hex, without leading zeros.
pub open spec fn id_text(n: nat) -> Seq<u8>
    decreases n,
{
    if n < 16 {
        seq![hex_digit(n as int)]
    } else {
        id_text(n / 16).push(hex_digit((n % 16) as int))
    }
}

/// The fields as they follow the id: each one hex-encoded, after one space.
pub open spec fn fields_text(fields: Seq<Seq<u8>>) -> Seq<u8>
    decreases fields.len(),
{
    if fields.len() == 0 {
        Seq::empty()
    } else {
        seq![SPACE] + hex_encoding(fields[0]) + fields_text(fields.skip(1))
    }
}

/// The request line, with its terminator.
pub open spec fn request_line(id: u64, fields: Seq<Seq<u8>>) -> Seq<u8> {
    id_text(id as nat) + fields_text(fields) + seq![NEWLINE]
}

/// Whether the hex form of each field can be allocated.
pub open spec fn fields_fit(fields: Seq<Seq<u8>>) -> bool {
    forall|i: int| 0 <= i < fields.len() ==> 2 * #[trigger] fields[i].len() <= isize::MAX
}

/// The id field of a line, and the rest of the line if it has other fields.
pub open spec fn split_line(line: Seq<u8>) -> (Seq<u8>, Option<Seq<u8>>) {
    let p = find(line, SPACE) as int;
    if p < line.len() {
        (line.take(p), Some(line.skip(p + 1)))
    } else {
        (line, None)
    }
}

/// The number that the digits of `text` stand for.
pub open spec fn hex_number(text: Seq<u8>) -> nat
    decreases text.len(),
{
    if text.len() == 0 {
        0
    } else {
        (hex_number(text.drop_last()) * 16 + digit_value(text.last())) as nat
    }
}

/// The id that the field `text` carries: it is made of hex digits only, at least one, and its
/// value fits an id.
pub open spec fn parsed_id(text: Seq<u8>) -> Option<u64> {
    if text.len() > 0 && (forall|i: int| 0 <= i < text.len() ==> is_hex(#[trigger] text[i]))
        && hex_number(text) <= u64::MAX {
        Some(hex_number(text) as u64)
    } else {
        None
    }
}

/// The decoded fields, or the error of the first field that is not hexadecimal.
pub open spec fn decoded_fields(texts: Seq<Seq<u8>>) -> Result<Seq<Seq<u8>>, HexError>
    decreases texts.len(),
{
    if texts.len() == 0 {
        Ok(Seq::empty())
    } else {
        match hex_decoding(texts[0]) {
            Err(err) => Err(err),
            Ok(first) => prepend_fields(seq![first], decoded_fields(texts.skip(1))),
        }
    }
}

/// `rest` with the fields `first` put before its own.
pub open spec fn prepend_fields(
    first: Seq<Seq<u8>>,
    rest: Result<Seq<Seq<u8>>, HexError>,
) -> Result<Seq<Seq<u8>>, HexError> {
    match rest {
        Ok(fields) => Ok(first + fields),
        Err(err) => Err(err),
    }
}

/// What the rest of a line decodes to: no rest is no fields, an empty rest is one empty field.
pub open spec fn decoded_payload(payload: Option<Seq<u8>>) -> Result<Seq<Seq<u8>>, HexError> {
    match payload {
        None => Ok(Seq::empty()),
        Some(text) => decoded_fields(split_on(text, SPACE)),
    }
}

/// Whether the hex form of each field can be allocated, so that the fields can be sent.
pub fn can_send(fields: &Vec<Vec<u8>>) -> (fit: bool)
    ensures
        fit == fields_fit(views(fields@)),
{
    let mut i: usize = 0;
    while i < fields.len()
        invariant
            i <= fields@.len(),
            forall|j: int| 0 <= j < i ==> 2 * #[trigger] views(fields@)[j].len() <= isize::MAX,
        decreases fields@.len() - i,
    {
        if fields[i].len() > isize::MAX as usize / 2 {
            assert(2 * views(fields@)[i as int].len() > isize::MAX);
            return false;
        }
        i += 1;
    }
    true
}

/// Appends the id in lowercase hex, without leading zeros.
fn push_id(line: &mut Vec<u8>, id: u64)
    ensures
        final(line)@ == old(line)@ + id_text(id as nat),
    decreases id,
{
    if id >= 16 {
        push_id(line, id / 16);
    }
    let d: u8 = (id % 16) as u8;
    line.push(if d < 10 { 48 + d } else { 87 + d });
    assert(line@ =~= old(line)@ + id_text(id as nat));
}

/// Encodes a request line: the `id`, followed by the hex-encoded `fields`, separated by single
/// spaces.
pub fn encode_request(id: u64, fields: &[&[u8]]) -> (line: Vec<u8>)
    requires
        fields_fit(slice_views(fields@)),
    ensures
        line@ == request_line(id, slice_views(fields@)),
{
    let ghost all = slice_views(fields@);
    let mut line: Vec<u8> = Vec::new();
    push_id(&mut line, id);
    let mut i: usize = 0;
    assert(all.skip(0) =~= all);
    assert(line@ + fields_text(all) =~= id_text(id as nat) + fields_text(all));
    while i < fields.len()
        invariant
            all == slice_views(fields@),
            fields_fit(all),
            i <= fields@.len(),
            line@ + fields_text(all.skip(i as int)) == id_text(id as nat) + fields_text(all),
        decreases fields@.len() - i,
    {
        let ghost before = line@;
        assert(all[i as int] == fields@[i as int]@);
        let text = encode_hex(fields[i]);
        line.push(SPACE);
        line.extend_from_slice(text.as_slice());
        proof {
            assert(line@ =~= before + seq![SPACE] + hex_encoding(all[i as int]));
            assert(all.skip(i as int)[0] == all[i as int]);
            assert(all.skip(i as int).skip(1) =~= all.skip(i + 1));
            assert(line@ + fields_text(all.skip(i + 1)) =~= before + fields_text(all.skip(i as int)));
        }
        i += 1;
    }
    assert(fields_text(all.skip(i as int)) =~= Seq::empty());
    assert(line@ =~= id_text(id as nat) + fields_text(all));
    line.push(NEWLINE);
    assert(line@ =~= request_line(id, all));
    line
}

/// Splits a reply line into the id field and the rest of the line (`None` if the line has no other
/// fields).
pub fn split_id(line: &[u8]) -> (parts: (&[u8], Option<&[u8]>))
    ensures
        parts.0@ == split_line(line@).0,
        match parts.1 {
            Some(rest) => split_line(line@).1 == Some(rest@),
            None => split_line(line@).1 is None,
        },
{
    let pos: usize = position(line, SPACE);
    if pos < line.len() {
        let rest = vstd::slice::slice_subrange(line, pos + 1, line.len());
        assert(rest@ =~= line@.skip(pos + 1));
        (vstd::slice::slice_subrange(line, 0, pos), Some(rest))
    } else {
        (line, None)
    }
}

/// The number of a text is at least that of any text it starts with.
proof fn lemma_hex_number_monotone(text: Seq<u8>, n: int)
    requires
        0 <= n <= text.len(),
        forall|i: int| 0 <= i < text.len() ==> is_hex(#[trigger] text[i]),
    ensures
        hex_number(text.take(n)) <= hex_number(text),
    decreases text.len() - n,
{
    if n < text.len() {
        lemma_hex_number_monotone(text, n + 1);
        assert(text.take(n + 1).drop_last() =~= text.take(n));
        assert(text.take(n + 1).last() == text[n]);
    } else {
        assert(text.take(n) =~= text);
    }
}

/// Parses the id field of a reply (hex, without `0x` prefix).
pub fn parse_id(field: &[u8]) -> (id: Option<u64>)
    ensures
        id == parsed_id(field@),
{
    if field.len() == 0 {
        return None;
    }
    let mut value: u64 = 0;
    let mut i: usize = 0;
    while i < field.len()
        invariant
            i <= field@.len(),
            forall|j: int| 0 <= j < i ==> is_hex(#[trigger] field@[j]),
            value == hex_number(field@.take(i as int)),
        decreases field@.len() - i,
    {
        let c: u8 = field[i];
        let d: u8 = if 48 <= c && c <= 57 {
            c - 48
        } else if 97 <= c && c <= 102 {
            c - 87
        } else if 65 <= c && c <= 70 {
            c - 55
        } else {
            assert(!is_hex(field@[i as int]));
            return None;
        };
        proof {
            assert(field@.take(i + 1).drop_last() =~= field@.take(i as int));
            assert(field@.take(i + 1).last() == c);
        }
        if value > 0x0fff_ffff_ffff_ffff {
            proof {
                if forall|j: int| 0 <= j < field@.len() ==> is_hex(#[trigger] field@[j]) {
                    lemma_hex_number_monotone(field@, i + 1);
                }
            }
            return None;
        }
        value = value * 16 + d as u64;
        i += 1;
    }
    assert(field@.take(i as int) =~= field@);
    Some(value)
}

/// Decodes the hex fields (separated by single spaces) following the id in a reply.
/// Empty fields are valid (empty bytes).
pub fn decode_fields(payload: Option<&[u8]>) -> (decoded: Result<Vec<Vec<u8>>, HexError>)
    ensures
        match decoded {
            Ok(fields) => decoded_payload(view_payload(payload)) == Ok::<Seq<Seq<u8>>, HexError>(
                views(fields@),
            ),
            Err(err) => decoded_payload(view_payload(payload)) == Err::<Seq<Seq<u8>>, HexError>(err),
        },
{
    let mut fields: Vec<Vec<u8>> = Vec::new();
    let text: &[u8] = match payload {
        None => {
            assert(views(fields@) =~= Seq::empty());
            return Ok(fields);
        },
        Some(text) => text,
    };
    let ghost whole = decoded_fields(split_on(text@, SPACE));
    let mut start: usize = 0;
    proof {
        assert(text@.skip(0) =~= text@);
        assert(views(fields@) =~= Seq::empty());
        assert(whole matches Ok(f) ==> Seq::<Seq<u8>>::empty() + f =~= f);
    }
    loop
        invariant
            start <= text@.len(),
            whole == decoded_payload(view_payload(payload)),
            whole == prepend_fields(
                views(fields@),
                decoded_fields(split_on(text@.skip(start as int), SPACE)),
            ),
        decreases text@.len() - start,
    {
        let rest = vstd::slice::slice_subrange(text, start, text.len());
        assert(rest@ =~= text@.skip(start as int));
        let p: usize = position(rest, SPACE);
        let ghost texts = split_on(rest@, SPACE);
        let piece = vstd::slice::slice_subrange(rest, 0, p);
        proof {
            assert(piece@ =~= rest@.take(p as int));
            assert(p == rest@.len() ==> piece@ =~= rest@);
            assert(texts[0] == piece@);
            assert(texts.len() > 0);
        }
        let ghost before = views(fields@);
        match decode_hex(piece) {
            Err(err) => {
                return Err(err);
            },
            Ok(bytes) => {
                fields.push(bytes);
                assert(views(fields@) =~= before.push(bytes@));
                proof {
                    let tail = decoded_fields(texts.skip(1));
                    assert(tail matches Ok(f) ==> before + (seq![bytes@] + f) =~= before.push(bytes@) + f);
                    assert(whole == prepend_fields(views(fields@), tail));
                }
            },
        }
        if p == rest.len() {
            proof {
                assert(texts.skip(1) =~= Seq::empty());
                assert(views(fields@) + Seq::<Seq<u8>>::empty() =~= views(fields@));
            }
            return Ok(fields);
        }
        proof {
            assert(texts.skip(1) =~= split_on(rest@.skip(p + 1), SPACE));
            assert(rest@.skip(p + 1) =~= text@.skip(start + p + 1));
        }
        start = start + p + 1;
    }
}

/// The contents of the rest of a line.
pub open spec fn view_payload(payload: Option<&[u8]>) -> Option<Seq<u8>> {
    match payload {
        Some(text) => Some(text@),
        None => None,
    }
}

/// The text of an id: hex digits only, at least one, and they stand for the id.
pub proof fn lemma_id_text(n: nat)
    ensures
        id_text(n).len() > 0,
        forall|i: int| 0 <= i < id_text(n).len() ==> is_hex(#[trigger] id_text(n)[i]),
        hex_number(id_text(n)) == n,
    decreases n,
{
    lemma_digit_value((n % 16) as int);
    if n < 16 {
        assert(id_text(n).drop_last() =~= Seq::<u8>::empty());
        assert(hex_number(Seq::<u8>::empty()) == 0);
    } else {
        lemma_id_text(n / 16);
        assert(id_text(n).drop_last() =~= id_text(n / 16));
    }
}

/// Hex-encoded bytes hold digits only, so neither a space nor anything that ends a line.
pub proof fn lemma_hex_encoding_digits(bytes: Seq<u8>)
    ensures
        forall|i: int|
            0 <= i < hex_encoding(bytes).len() ==> is_hex(#[trigger] hex_encoding(bytes)[i]),
{
    assert forall|i: int| 0 <= i < hex_encoding(bytes).len() implies is_hex(
        #[trigger] hex_encoding(bytes)[i],
    ) by {
        lemma_digit_value(bytes[i / 2] as int / 16);
        lemma_digit_value(bytes[i / 2] as int % 16);
    }
}

/// The fields of a line hold digits and spaces only.
pub proof fn lemma_fields_text(fields: Seq<Seq<u8>>)
    ensures
        forall|i: int|
            0 <= i < fields_text(fields).len() ==> is_hex(#[trigger] fields_text(fields)[i])
                || fields_text(fields)[i] == SPACE,
    decreases fields.len(),
{
    if fields.len() > 0 {
        let first = hex_encoding(fields[0]);
        let rest = fields_text(fields.skip(1));
        lemma_hex_encoding_digits(fields[0]);
        lemma_fields_text(fields.skip(1));
        let text = fields_text(fields);
        assert forall|i: int| 0 <= i < text.len() implies is_hex(#[trigger] text[i]) || text[i]
            == SPACE by {
            if i == 0 {
            } else if i < 1 + first.len() {
                assert(text[i] == first[i - 1]);
            } else {
                assert(text[i] == rest[i - 1 - first.len()]);
            }
        }
    }
}

/// The fields that follow the id, without the space before the first of them, decode to the fields.
proof fn lemma_decode_fields_text(fields: Seq<Seq<u8>>)
    requires
        fields.len() > 0,
    ensures
        decoded_fields(split_on(hex_encoding(fields[0]) + fields_text(fields.skip(1)), SPACE)) == Ok::<
            Seq<Seq<u8>>,
            HexError,
        >(fields),
    decreases fields.len(),
{
    let first = hex_encoding(fields[0]);
    let rest = fields.skip(1);
    lemma_hex_encoding_digits(fields[0]);
    law_decode_encode(fields[0]);
    assert(forall|i: int| 0 <= i < first.len() ==> #[trigger] first[i] != SPACE);
    if rest.len() == 0 {
        assert(first + fields_text(rest) =~= first);
        lemma_split_on_single(first, SPACE);
        assert(seq![first].skip(1) =~= Seq::<Seq<u8>>::empty());
        assert(seq![first][0] == first);
        assert(decoded_fields(Seq::<Seq<u8>>::empty()) == Ok::<Seq<Seq<u8>>, HexError>(Seq::empty()));
        assert(seq![fields[0]] + Seq::<Seq<u8>>::empty() =~= fields);
    } else {
        let tail = hex_encoding(rest[0]) + fields_text(rest.skip(1));
        assert(first + fields_text(rest) =~= first + seq![SPACE] + tail);
        lemma_split_on_prefix(first, tail, SPACE);
        lemma_decode_fields_text(rest);
        assert((seq![first] + split_on(tail, SPACE)).skip(1) =~= split_on(tail, SPACE));
    }
    assert(seq![fields[0]] + rest =~= fields);
}

/// A line that is written from an id and fields, without its terminator, reads back as that id
/// and those fields: whatever the fields hold, and also if there are none.
pub proof fn law_request_reads_back(id: u64, fields: Seq<Seq<u8>>)
    ensures
        ({
            let (field, payload) = split_line(request_line(id, fields).drop_last());
            &&& parsed_id(field) == Some(id)
            &&& decoded_payload(payload) == Ok::<Seq<Seq<u8>>, HexError>(fields)
        }),
{
    let text = id_text(id as nat);
    let line = request_line(id, fields).drop_last();
    lemma_id_text(id as nat);
    assert(line =~= text + fields_text(fields));
    assert forall|i: int| 0 <= i < text.len() implies #[trigger] line[i] != SPACE by {
        assert(line[i] == text[i]);
    }
    lemma_find_is(line, SPACE, text.len());
    if fields.len() == 0 {
        assert(line =~= text);
        assert(fields =~= Seq::<Seq<u8>>::empty());
    } else {
        assert(line[text.len() as int] == SPACE);
        assert(line.take(text.len() as int) =~= text);
        assert(line.skip(text.len() as int + 1) =~= hex_encoding(fields[0]) + fields_text(
            fields.skip(1),
        ));
        lemma_decode_fields_text(fields);
    }
}

/// A request is exactly one line: its only line terminator is its last byte, and no carriage
/// return stands anywhere in it.
pub proof fn law_request_is_one_line(id: u64, fields: Seq<Seq<u8>>)
    ensures
        find(request_line(id, fields), NEWLINE) == request_line(id, fields).len() - 1,
        forall|i: int|
            0 <= i < request_line(id, fields).len() ==> #[trigger] request_line(id, fields)[i]
                != CARRIAGE_RETURN,
{
    let text = id_text(id as nat);
    let rest = fields_text(fields);
    let line = request_line(id, fields);
    lemma_id_text(id as nat);
    lemma_fields_text(fields);
    assert forall|i: int| 0 <= i < line.len() - 1 implies #[trigger] line[i] != NEWLINE && line[i]
        != CARRIAGE_RETURN by {
        if i < text.len() {
            assert(line[i] == text[i]);
        } else {
            assert(line[i] == rest[i - text.len()]);
        }
    }
    lemma_find_is(line, NEWLINE, (line.len() - 1) as nat);
}

/// Two requests are written alike only if their ids and their fields are the same.
pub proof fn law_requests_differ(id1: u64, fields1: Seq<Seq<u8>>, id2: u64, fields2: Seq<Seq<u8>>)
    requires
        request_line(id1, fields1) == request_line(id2, fields2),
    ensures
        id1 == id2,
        fields1 == fields2,
{
    law_request_reads_back(id1, fields1);
    law_request_reads_back(id2, fields2);
}

} // verus!
