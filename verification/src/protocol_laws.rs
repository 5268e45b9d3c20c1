//! What the lines of the protocol consist of.
use vstd::arithmetic::div_mod::lemma_div_denominator;
use vstd::arithmetic::power::{lemma_pow_positive, pow};
use vstd::prelude::*;
use crate::bytes::{find, lemma_find, lemma_split_on_prefix, lemma_split_on_single, split_on};
use crate::exchange::{answers, outcome, received, received_line, view_rest, EventModel};
use crate::hexcode::{hex_decoding, hex_digit, hex_encoding, is_hex, HexError};
use crate::protocol::{
    decoded_fields, decoded_payload, fields_text, hex_number, id_text, lemma_hex_encoding_digits,
    lemma_id_text, parsed_id, request_line, split_line, view_payload, NEWLINE, SPACE,
};
use crate::reader::Output;

verus! {

/// The pieces, with one `b` between any two neighbours.
pub open spec fn joined_with(pieces: Seq<Seq<u8>>, b: u8) -> Seq<u8>
    decreases pieces.len(),
{
    if pieces.len() == 0 {
        Seq::empty()
    } else if pieces.len() == 1 {
        pieces[0]
    } else {
        pieces[0] + seq![b] + joined_with(pieces.skip(1), b)
    }
}

/// The pieces of a text are at least one, none of them holds the byte that it is split on, and with
/// that byte between them they are the text.
pub proof fn law_pieces_make_the_text(s: Seq<u8>, b: u8)
    ensures
        split_on(s, b).len() > 0,
        forall|i: int, j: int|
            0 <= i < split_on(s, b).len() && 0 <= j < split_on(s, b)[i].len()
                ==> #[trigger] split_on(s, b)[i][j] != b,
        joined_with(split_on(s, b), b) == s,
    decreases s.len(),
{
    lemma_find(s, b);
    let p = find(s, b) as int;
    let pieces = split_on(s, b);
    if p < s.len() {
        let rest = s.skip(p + 1);
        law_pieces_make_the_text(rest, b);
        assert(pieces.skip(1) =~= split_on(rest, b));
        assert forall|i: int, j: int|
            0 <= i < pieces.len() && 0 <= j < pieces[i].len() implies #[trigger] pieces[i][j]
            != b by {
            if i > 0 {
                assert(pieces[i] == split_on(rest, b)[i - 1]);
                assert(split_on(rest, b)[i - 1][j] != b);
            } else {
                assert(pieces[0][j] == s[j]);
            }
        }
        assert(s =~= s.take(p) + seq![b] + rest);
    } else {
        assert(pieces =~= seq![s]);
    }
}

/// A request line consists of the id and the hex form of each field, in order, with exactly one space
/// before each field, and then the end of the line.
pub proof fn law_request_fields(id: u64, fields: Seq<Seq<u8>>)
    ensures
        request_line(id, fields).last() == NEWLINE,
        ({
            let pieces = split_on(request_line(id, fields).drop_last(), SPACE);
            &&& pieces.len() == fields.len() + 1
            &&& pieces[0] == id_text(id as nat)
            &&& forall|i: int|
                0 <= i < fields.len() ==> #[trigger] pieces[i + 1] == hex_encoding(fields[i])
        }),
{
    let text = id_text(id as nat);
    lemma_id_text(id as nat);
    assert(request_line(id, fields).drop_last() =~= text + fields_text(fields));
    assert forall|i: int| 0 <= i < text.len() implies #[trigger] text[i] != SPACE by {
        assert(is_hex(text[i]));
    }
    lemma_pieces_of_fields(text, fields);
}

proof fn lemma_pieces_of_fields(first: Seq<u8>, fields: Seq<Seq<u8>>)
    requires
        forall|i: int| 0 <= i < first.len() ==> #[trigger] first[i] != SPACE,
    ensures
        ({
            let pieces = split_on(first + fields_text(fields), SPACE);
            &&& pieces.len() == fields.len() + 1
            &&& pieces[0] == first
            &&& forall|i: int|
                0 <= i < fields.len() ==> #[trigger] pieces[i + 1] == hex_encoding(fields[i])
        }),
    decreases fields.len(),
{
    let pieces = split_on(first + fields_text(fields), SPACE);
    if fields.len() == 0 {
        assert(first + fields_text(fields) =~= first);
        lemma_split_on_single(first, SPACE);
    } else {
        let next = hex_encoding(fields[0]);
        let rest = fields.skip(1);
        lemma_hex_encoding_digits(fields[0]);
        assert forall|i: int| 0 <= i < next.len() implies #[trigger] next[i] != SPACE by {
            assert(is_hex(next[i]));
        }
        lemma_pieces_of_fields(next, rest);
        lemma_split_on_prefix(first, next + fields_text(rest), SPACE);
        assert(first + fields_text(fields) =~= first + seq![SPACE] + (next + fields_text(rest)));
        let tail = split_on(next + fields_text(rest), SPACE);
        assert forall|i: int| 0 <= i < fields.len() implies #[trigger] pieces[i + 1]
            == hex_encoding(fields[i]) by {
            assert(pieces[i + 1] == tail[i]);
            if i > 0 {
                assert(tail[(i - 1) + 1] == hex_encoding(rest[i - 1]));
            }
        }
    }
}

/// The sixteen digits, in order of their values.
pub open spec fn digits() -> Seq<u8> {
    seq![
        48u8, 49u8, 50u8, 51u8, 52u8, 53u8, 54u8, 55u8, 56u8, 57u8, 97u8, 98u8, 99u8, 100u8, 101u8,
        102u8,
    ]
}

/// An id is written with lowercase digits, the most significant first: the digit at each place is
/// that of the power of sixteen of this place, and the first digit is not zero unless it is the only
/// one.
pub proof fn law_id_digits(n: nat, i: int)
    requires
        0 <= i < id_text(n).len(),
    ensures
        ({
            let k = (id_text(n).len() - 1 - i) as nat;
            id_text(n)[i] == digits()[(n as int / pow(16, k)) % 16]
        }),
        n < pow(16, id_text(n).len()),
        id_text(n).len() > 1 ==> n >= pow(16, (id_text(n).len() - 1) as nat),
    decreases n,
{
    let text = id_text(n);
    let len = text.len();
    reveal(pow);
    lemma_pow_positive(16, len);
    assert(forall|d: int| 0 <= d < 16 ==> #[trigger] hex_digit(d) == digits()[d]);
    if n < 16 {
        assert(len == 1);
        assert(pow(16, 0) == 1);
        assert(pow(16, 1) == 16 * pow(16, 0));
        assert(n as int / 1 == n);
    } else {
        let m = n / 16;
        lemma_id_text(m);
        assert(text.drop_last() =~= id_text(m));
        assert(len == id_text(m).len() + 1);
        assert(pow(16, len) == 16 * pow(16, (len - 1) as nat));
        if i < len - 1 {
            law_id_digits(m, i);
            let k = (len - 1 - i) as nat;
            lemma_pow_positive(16, (k - 1) as nat);
            assert(pow(16, k) == 16 * pow(16, (k - 1) as nat));
            lemma_div_denominator(n as int, 16, pow(16, (k - 1) as nat));
            assert(text[i] == id_text(m)[i]);
        } else {
            law_id_digits(m, 0);
            assert(pow(16, 0) == 1);
            assert(n as int / 1 == n);
        }
        if len - 1 > 1 {
            assert(pow(16, (len - 1) as nat) == 16 * pow(16, (len - 2) as nat));
        } else {
            assert(pow(16, 0) == 1);
            assert(pow(16, 1) == 16 * pow(16, 0));
        }
    }
}

/// `text` with lowercase digits in place of uppercase ones.
pub open spec fn lowered(text: Seq<u8>) -> Seq<u8> {
    Seq::new(
        text.len(),
        |i: int|
            if 65 <= text[i] <= 70 {
                (text[i] + 32) as u8
            } else {
                text[i]
            },
    )
}

/// As many zeros as given.
pub open spec fn zeros(count: nat) -> Seq<u8> {
    Seq::new(count, |i: int| 48u8)
}

proof fn lemma_lowered_number(text: Seq<u8>)
    requires
        forall|i: int| 0 <= i < text.len() ==> is_hex(#[trigger] text[i]),
    ensures
        hex_number(lowered(text)) == hex_number(text),
        forall|i: int| 0 <= i < text.len() ==> is_hex(#[trigger] lowered(text)[i]),
    decreases text.len(),
{
    if text.len() > 0 {
        let front = text.drop_last();
        assert forall|i: int| 0 <= i < front.len() implies is_hex(#[trigger] front[i]) by {
            assert(front[i] == text[i]);
        }
        lemma_lowered_number(front);
        assert(lowered(text).drop_last() =~= lowered(front));
        assert(is_hex(text[text.len() - 1]));
        assert forall|i: int| 0 <= i < text.len() implies is_hex(#[trigger] lowered(text)[i]) by {
            assert(is_hex(text[i]));
        }
    }
}

proof fn lemma_leading_zeros(count: nat, text: Seq<u8>)
    ensures
        hex_number(zeros(count) + text) == hex_number(text),
    decreases text.len(), count,
{
    let all = zeros(count) + text;
    if text.len() > 0 {
        assert(all.drop_last() =~= zeros(count) + text.drop_last());
        lemma_leading_zeros(count, text.drop_last());
    } else if count > 0 {
        assert(all.drop_last() =~= zeros((count - 1) as nat) + text);
        lemma_leading_zeros((count - 1) as nat, text);
        assert(hex_number(text) == 0);
    } else {
        assert(all =~= text);
    }
}

/// An id is read as the number that it is written as, in digits of either case and with or without
/// leading zeros, if that fits an id. If it does not fit, it is no id.
pub proof fn law_ids_read_back(text: Seq<u8>, n: nat, count: nat)
    requires
        lowered(text) == zeros(count) + id_text(n),
    ensures
        parsed_id(text) == if n <= u64::MAX {
            Some(n as u64)
        } else {
            None
        },
{
    let plain = zeros(count) + id_text(n);
    lemma_id_text(n);
    assert(text.len() == plain.len());
    assert forall|i: int| 0 <= i < text.len() implies is_hex(#[trigger] text[i]) by {
        if i < count {
            assert(plain[i] == zeros(count)[i]);
        } else {
            assert(plain[i] == id_text(n)[i - count]);
            assert(is_hex(id_text(n)[i - count]));
        }
        assert(is_hex(lowered(text)[i]));
    }
    lemma_lowered_number(text);
    lemma_leading_zeros(count, id_text(n));
}

/// Every text of hexadecimal digits is some number, written with some leading zeros.
pub proof fn law_hex_digits_are_numbers(text: Seq<u8>)
    requires
        text.len() > 0,
        forall|i: int| 0 <= i < text.len() ==> digits().contains(lowered(text)[i]),
    ensures
        exists|n: nat, count: nat| #[trigger] (zeros(count) + id_text(n)) == lowered(text),
    decreases text.len(),
{
    let plain = lowered(text);
    let last = plain.last();
    assert(digits().contains(lowered(text)[text.len() - 1]));
    let d = choose|d: int| 0 <= d < digits().len() && digits()[d] == last;
    assert(hex_digit(d) == last);
    if text.len() == 1 {
        assert(zeros(0) + id_text(d as nat) =~= plain);
    } else {
        let front = text.drop_last();
        assert(lowered(front) =~= plain.drop_last());
        assert forall|i: int| 0 <= i < front.len() implies digits().contains(
            lowered(front)[i],
        ) by {
            assert(lowered(front)[i] == lowered(text)[i]);
        }
        law_hex_digits_are_numbers(front);
        let (n, count) = choose|n: nat, count: nat| #[trigger]
            (zeros(count) + id_text(n)) == lowered(front);
        if n == 0 {
            assert(id_text(0) =~= seq![48u8]);
            assert(zeros(count + 1) =~= zeros(count) + seq![48u8]);
            assert(zeros(count + 1) + id_text(d as nat) =~= lowered(front).push(last));
            assert(lowered(front).push(last) =~= plain);
        } else {
            let m = (16 * n + d) as nat;
            assert(m / 16 == n && m % 16 == d);
            assert(id_text(m) =~= id_text(n).push(last));
            assert(zeros(count) + id_text(m) =~= lowered(front).push(last));
            assert(lowered(front).push(last) =~= plain);
        }
    }
}

/// Nothing but hexadecimal digits is read as an id: no sign, no prefix, no other character, and not
/// the empty text.
pub proof fn law_other_texts_are_no_ids(text: Seq<u8>, i: int)
    requires
        0 <= i < text.len(),
        !digits().contains(lowered(text)[i]),
    ensures
        parsed_id(text) is None,
        parsed_id(Seq::empty()) is None,
{
    if is_hex(text[i]) {
        let c = lowered(text)[i];
        let d: int = if c <= 57 {
            c - 48
        } else {
            c - 87
        };
        assert(digits()[d] == c);
    }
}

/// A line is its id field, which holds no space, and, if it has any, one space and the rest.
pub proof fn law_line_is_id_and_rest(line: Seq<u8>)
    ensures
        ({
            let (id, rest) = split_line(line);
            &&& forall|i: int| 0 <= i < id.len() ==> #[trigger] id[i] != SPACE
            &&& line == match rest {
                Some(rest) => id + seq![SPACE] + rest,
                None => id,
            }
        }),
{
    lemma_find(line, SPACE);
    let p = find(line, SPACE) as int;
    if p < line.len() {
        assert(line =~= line.take(p) + seq![SPACE] + line.skip(p + 1));
    }
}

/// The texts of fields decode to fields exactly if each of them decodes to its field, and to an error
/// exactly if that is the error of one of them, and all before it decode.
pub proof fn law_fields_are_decoded(texts: Seq<Seq<u8>>)
    ensures
        forall|fields: Seq<Seq<u8>>| #[trigger]
            decoded_fields(texts) == Ok::<Seq<Seq<u8>>, HexError>(fields) <==> fields.len()
                == texts.len() && forall|i: int|
                0 <= i < texts.len() ==> #[trigger] hex_decoding(texts[i]) == Ok::<
                    Seq<u8>,
                    HexError,
                >(fields[i]),
        forall|err: HexError| #[trigger]
            decoded_fields(texts) == Err::<Seq<Seq<u8>>, HexError>(err) <==> exists|i: int|
                0 <= i < texts.len() && #[trigger] hex_decoding(texts[i]) == Err::<
                    Seq<u8>,
                    HexError,
                >(err) && forall|j: int| 0 <= j < i ==> #[trigger] hex_decoding(texts[j]) is Ok,
    decreases texts.len(),
{
    lemma_fields_are_decoded(texts);
    match decoded_fields(texts) {
        Ok(found) => {
            assert forall|fields: Seq<Seq<u8>>| #[trigger]
                decoded_fields(texts) == Ok::<Seq<Seq<u8>>, HexError>(fields) <==> fields.len()
                    == texts.len() && forall|i: int|
                    0 <= i < texts.len() ==> #[trigger] hex_decoding(texts[i]) == Ok::<
                        Seq<u8>,
                        HexError,
                    >(fields[i]) by {
                if fields.len() == texts.len() && forall|i: int|
                    0 <= i < texts.len() ==> #[trigger] hex_decoding(texts[i]) == Ok::<
                        Seq<u8>,
                        HexError,
                    >(fields[i]) {
                    assert forall|i: int| 0 <= i < texts.len() implies fields[i] == found[i] by {
                        assert(hex_decoding(texts[i]) == Ok::<Seq<u8>, HexError>(fields[i]));
                    }
                    assert(fields =~= found);
                }
            }
        },
        Err(found) => {
            let i = choose|i: int|
                0 <= i < texts.len() && #[trigger] hex_decoding(texts[i]) == Err::<
                    Seq<u8>,
                    HexError,
                >(found) && forall|j: int| 0 <= j < i ==> #[trigger] hex_decoding(texts[j]) is Ok;
            assert forall|err: HexError| #[trigger]
                decoded_fields(texts) == Err::<Seq<Seq<u8>>, HexError>(err) <==> exists|k: int|
                    0 <= k < texts.len() && #[trigger] hex_decoding(texts[k]) == Err::<
                        Seq<u8>,
                        HexError,
                    >(err) && forall|j: int| 0 <= j < k ==> #[trigger] hex_decoding(texts[j]) is Ok by {
                if exists|k: int|
                    0 <= k < texts.len() && #[trigger] hex_decoding(texts[k]) == Err::<
                        Seq<u8>,
                        HexError,
                    >(err) && forall|j: int|
                        0 <= j < k ==> #[trigger] hex_decoding(texts[j]) is Ok {
                    let k = choose|k: int|
                        0 <= k < texts.len() && #[trigger] hex_decoding(texts[k]) == Err::<
                            Seq<u8>,
                            HexError,
                        >(err) && forall|j: int|
                            0 <= j < k ==> #[trigger] hex_decoding(texts[j]) is Ok;
                    assert(i == k) by {
                        if i < k {
                            assert(hex_decoding(texts[i]) is Ok);
                        } else if k < i {
                            assert(hex_decoding(texts[k]) is Ok);
                        }
                    }
                }
            }
        },
    }
}

proof fn lemma_fields_are_decoded(texts: Seq<Seq<u8>>)
    ensures
        match decoded_fields(texts) {
            Ok(fields) => fields.len() == texts.len() && forall|i: int|
                0 <= i < texts.len() ==> #[trigger] hex_decoding(texts[i]) == Ok::<
                    Seq<u8>,
                    HexError,
                >(fields[i]),
            Err(err) => exists|i: int|
                0 <= i < texts.len() && #[trigger] hex_decoding(texts[i]) == Err::<
                    Seq<u8>,
                    HexError,
                >(err) && forall|j: int| 0 <= j < i ==> #[trigger] hex_decoding(texts[j]) is Ok,
        },
    decreases texts.len(),
{
    if texts.len() > 0 {
        let rest = texts.skip(1);
        lemma_fields_are_decoded(rest);
        match hex_decoding(texts[0]) {
            Err(err) => {
                assert(hex_decoding(texts[0]) == Err::<Seq<u8>, HexError>(err));
            },
            Ok(first) => match decoded_fields(rest) {
                Ok(others) => {
                    let fields = seq![first] + others;
                    assert forall|i: int| 0 <= i < texts.len() implies #[trigger] hex_decoding(
                        texts[i],
                    ) == Ok::<Seq<u8>, HexError>(fields[i]) by {
                        if i > 0 {
                            assert(hex_decoding(rest[i - 1]) == Ok::<Seq<u8>, HexError>(
                                others[i - 1],
                            ));
                        }
                    }
                },
                Err(err) => {
                    let i = choose|i: int|
                        0 <= i < rest.len() && #[trigger] hex_decoding(rest[i]) == Err::<
                            Seq<u8>,
                            HexError,
                        >(err) && forall|j: int|
                            0 <= j < i ==> #[trigger] hex_decoding(rest[j]) is Ok;
                    assert(texts[i + 1] == rest[i]);
                    assert forall|j: int| 0 <= j < i + 1 implies #[trigger] hex_decoding(
                        texts[j],
                    ) is Ok by {
                        if j > 0 {
                            assert(hex_decoding(rest[j - 1]) is Ok);
                        }
                    }
                    assert(hex_decoding(texts[i + 1]) == Err::<Seq<u8>, HexError>(err));
                },
            },
        }
    }
}

/// A line without a rest has no fields; otherwise its fields are what stands between the spaces of
/// the rest, also where that is nothing.
pub proof fn law_payload_is_split_at_spaces(text: Seq<u8>)
    ensures
        decoded_payload(None) == Ok::<Seq<Seq<u8>>, HexError>(Seq::empty()),
        decoded_payload(Some(text)) == decoded_fields(split_on(text, SPACE)),
{
}

/// A line answers a request exactly if its id field is read as the id of the request.
pub proof fn law_answers_carry_the_id(line: Seq<u8>, id: u64)
    ensures
        answers(line, id) <==> parsed_id(split_line(line).0) == Some(id),
{
}

/// The fields of a reply are returned exactly if they can be decoded and differ from those that were
/// sent.
pub proof fn law_outcome(fields: Seq<Seq<u8>>, payload: Option<Seq<u8>>)
    ensures
        forall|reply: Seq<Seq<u8>>| #[trigger]
            outcome(fields, payload) == Some(reply) <==> decoded_payload(payload) == Ok::<
                Seq<Seq<u8>>,
                HexError,
            >(reply) && reply != fields,
        decoded_payload(payload) is Err ==> outcome(fields, payload) is None,
{
}

/// Output is received in time or overdue; every other event brings none.
pub proof fn law_received_output(event: EventModel, line: Seq<u8>)
    ensures
        forall|output: Output| #[trigger]
            received(event) == Some(output) <==> event == EventModel::Output(output) || event
                == EventModel::Overdue(output),
        received_line(event) == Some(line) <==> event == EventModel::Output(Output::Stdout(line))
            || event == EventModel::Overdue(Output::Stdout(line)),
{
}

/// The contents of the rest of a line are the whole rest, if there is any.
pub proof fn law_rest_views(slice: &[u8], text: Vec<u8>)
    ensures
        view_payload(None) == None::<Seq<u8>>,
        view_payload(Some(slice)) == Some(slice@),
        view_rest(None) == None::<Seq<u8>>,
        view_rest(Some(text)) == Some(text@),
{
}

} // verus!
