//! Applying a reply of the external process to an input.
//!
//! The fields that describe an input depend on its type. An input of bytes is a single field, the
//! bytes. An input of several parts is a pair of fields for each part, the key (formatted with
//! `Debug`) and the part's bytes. There is no negotiation, an external program is built for one of
//! these.
use vstd::prelude::*;
use vstd::utf8::encode_utf8;
use crate::bytes::{same_bytes, views};
use crate::exchange::{ActionModel, EventModel};
use crate::exchange_laws::{
    is_run, law_good_replies_are_returned, law_replies_answer_the_request, run,
};
use crate::inputs::{set_bytes, HasMutatorBytes, MultipartInput, ResizableMutator};
use crate::mutator::{Error, ExternalProcessMutator, MutatorModel};
use crate::protocol::request_line;
use crate::reader::Output;

verus! {

/// The result of a mutation.
#[derive(Clone, Copy, Debug, PartialEq, Eq, Structural)]
pub enum MutationResult {
    /// The input was changed.
    Mutated,
    /// The input was left alone.
    Skipped,
}

/// The new bytes of an input, if the reply holds any: it must be exactly one field, which is not
/// empty and does not exceed the max size.
pub open spec fn new_bytes(reply: Seq<Seq<u8>>, max_size: nat) -> Option<Seq<u8>> {
    if reply.len() == 1 && 0 < reply[0].len() <= max_size {
        Some(reply[0])
    } else {
        None
    }
}

/// The bytes of each key.
pub open spec fn key_views(keys: Seq<String>) -> Seq<Seq<u8>> {
    Seq::new(keys.len(), |i: int| encode_utf8(keys[i]@))
}

/// The fields for an input of several parts: the key and the bytes of each part, in order.
pub open spec fn part_fields<I: HasMutatorBytes, K>(
    parts: Seq<(K, I)>,
    keys: Seq<Seq<u8>>,
) -> Seq<Seq<u8>> {
    Seq::new(
        2 * parts.len(),
        |i: int|
            if i % 2 == 0 {
                keys[i / 2]
            } else {
                parts[i / 2].1.bytes()
            },
    )
}

/// The position of the first of the `keys` that is `key`, or their number if none is.
pub open spec fn key_index(keys: Seq<Seq<u8>>, key: Seq<u8>) -> nat
    decreases keys.len(),
{
    if keys.len() == 0 || keys[0] == key {
        0
    } else {
        1 + key_index(keys.skip(1), key)
    }
}

/// Whether a reply describes new parts: it is made of at least one pair of fields, in each pair the
/// first is one of the input's keys, and the second does not exceed the max size.
pub open spec fn describes_parts(reply: Seq<Seq<u8>>, keys: Seq<Seq<u8>>, max_size: nat) -> bool {
    &&& reply.len() > 0
    &&& reply.len() % 2 == 0
    &&& forall|j: int|
        0 <= j < reply.len() / 2 ==> pair_is_usable(#[trigger] reply[2 * j], reply[2 * j + 1], keys, max_size)
}

/// Whether a pair of fields describes a part.
pub open spec fn pair_is_usable(
    key: Seq<u8>,
    bytes: Seq<u8>,
    keys: Seq<Seq<u8>>,
    max_size: nat,
) -> bool {
    key_index(keys, key) < keys.len() && bytes.len() <= max_size
}

/// Whether `part` is made from `template`: a copy of its key, and a copy of its contents whose
/// bytes are replaced.
pub open spec fn made_from<I: HasMutatorBytes + Clone, K: Clone>(
    part: (K, I),
    template: (K, I),
    bytes: Seq<u8>,
) -> bool {
    &&& cloned(template.0, part.0)
    &&& part.1.bytes() == bytes
    &&& exists|copy: I| #[trigger] cloned(template.1, copy) && part.1.rest() == copy.rest()
}

/// Whether `parts` are the ones that a reply describes, each made from the first part of the input
/// that has its key.
pub open spec fn parts_follow<I: HasMutatorBytes + Clone, K: Clone>(
    parts: Seq<(K, I)>,
    input: Seq<(K, I)>,
    keys: Seq<Seq<u8>>,
    reply: Seq<Seq<u8>>,
) -> bool {
    &&& parts.len() == reply.len() / 2
    &&& forall|j: int|
        0 <= j < parts.len() ==> made_from(
            #[trigger] parts[j],
            input[key_index(keys, reply[2 * j]) as int],
            reply[2 * j + 1],
        )
}

/// The text that `Debug` makes of a string.
pub uninterp spec fn debug_text(s: Seq<char>) -> Seq<char>;

/// The `Debug` form of a key, from std's `impl Debug for String`.
///
/// Trusted: the text depends on the characters of the key alone. Which characters are escaped, and
/// how, is not stated.
#[verifier::external_body]
fn debug_string(key: &String) -> (text: String)
    ensures
        text@ == debug_text(key@),
{
    format!("{key:?}")
}

/// The `Debug` form of the key of each part.
pub fn string_keys<I>(input: &MultipartInput<I, String>) -> (keys: Vec<String>)
    ensures
        keys@.len() == input@.len(),
        forall|i: int| 0 <= i < keys@.len() ==> (#[trigger] keys@[i])@ == debug_text(input@[i].0@),
{
    let parts = input.parts();
    let mut keys: Vec<String> = Vec::new();
    let mut i: usize = 0;
    while i < parts.len()
        invariant
            parts@ == input@,
            i <= parts@.len(),
            keys@.len() == i,
            forall|j: int| 0 <= j < i ==> (#[trigger] keys@[j])@ == debug_text(input@[j].0@),
        decreases parts@.len() - i,
    {
        keys.push(debug_string(&parts[i].0));
        i += 1;
    }
    keys
}

/// The fields to send for an input of bytes: just the bytes.
pub fn bytes_fields<I: HasMutatorBytes>(input: &I) -> (fields: Vec<Vec<u8>>)
    ensures
        views(fields@) == seq![input.bytes()],
{
    let mut fields: Vec<Vec<u8>> = Vec::new();
    fields.push(vstd::slice::slice_to_vec(input.mutator_bytes()));
    assert(views(fields@) =~= seq![input.bytes()]);
    fields
}

/// The fields to send for an input of several parts, given the `Debug` form of the key of each.
pub fn multipart_fields<I: HasMutatorBytes, K>(
    input: &MultipartInput<I, K>,
    keys: &Vec<String>,
) -> (fields: Vec<Vec<u8>>)
    requires
        keys@.len() == input@.len(),
    ensures
        views(fields@) == part_fields(input@, key_views(keys@)),
{
    let parts = input.parts();
    let mut fields: Vec<Vec<u8>> = Vec::new();
    let ghost all = part_fields(input@, key_views(keys@));
    let mut i: usize = 0;
    while i < parts.len()
        invariant
            parts@ == input@,
            keys@.len() == parts@.len(),
            i <= parts@.len(),
            fields@.len() == 2 * i,
            all == part_fields(input@, key_views(keys@)),
            forall|j: int| 0 <= j < 2 * i ==> #[trigger] views(fields@)[j] == all[j],
        decreases parts@.len() - i,
    {
        let ghost before = views(fields@);
        fields.push(vstd::slice::slice_to_vec(keys[i].as_str().as_bytes()));
        fields.push(vstd::slice::slice_to_vec(parts[i].1.mutator_bytes()));
        proof {
            assert((2 * i) / 2 == i && (2 * i) % 2 == 0);
            assert((2 * i + 1) / 2 == i && (2 * i + 1) % 2 == 1);
            assert(key_views(keys@)[i as int] == encode_utf8(keys@[i as int]@));
            assert forall|j: int| 0 <= j < 2 * (i + 1) implies #[trigger] views(fields@)[j]
                == all[j] by {
                if j < 2 * i {
                    assert(views(fields@)[j] == before[j]);
                }
            }
        }
        i += 1;
    }
    assert(views(fields@) =~= all);
    fields
}

/// [`key_index`] gives the first position of `key`, and only that.
proof fn lemma_key_index(keys: Seq<Seq<u8>>, key: Seq<u8>)
    ensures
        key_index(keys, key) <= keys.len(),
        key_index(keys, key) < keys.len() ==> keys[key_index(keys, key) as int] == key,
        forall|i: int| 0 <= i < key_index(keys, key) ==> #[trigger] keys[i] != key,
    decreases keys.len(),
{
    if keys.len() > 0 && keys[0] != key {
        let rest = keys.skip(1);
        lemma_key_index(rest, key);
        assert forall|i: int| 0 <= i < key_index(keys, key) implies #[trigger] keys[i] != key by {
            if i > 0 {
                assert(rest[i - 1] == keys[i]);
            }
        }
    }
}

/// A position with the properties of the first `key` is the one that [`key_index`] gives.
proof fn lemma_key_index_is(keys: Seq<Seq<u8>>, key: Seq<u8>, p: nat)
    requires
        p <= keys.len(),
        forall|i: int| 0 <= i < p ==> #[trigger] keys[i] != key,
        p < keys.len() ==> keys[p as int] == key,
    ensures
        key_index(keys, key) == p,
{
    lemma_key_index(keys, key);
    let k = key_index(keys, key);
    if k < p {
        assert(keys[k as int] != key);
    } else if p < k {
        assert(keys[p as int] != key);
    }
}

/// The position of the first of the `keys` that is `key`, or their number if none is.
fn find_key(keys: &Vec<String>, key: &[u8]) -> (p: usize)
    ensures
        p == key_index(key_views(keys@), key@),
        p <= keys@.len(),
{
    let mut p: usize = 0;
    while p < keys.len() && !same_bytes(keys[p].as_str().as_bytes(), key)
        invariant
            p <= keys@.len(),
            forall|i: int| 0 <= i < p ==> #[trigger] key_views(keys@)[i] != key@,
        decreases keys@.len() - p,
    {
        p += 1;
    }
    proof {
        lemma_key_index_is(key_views(keys@), key@, p as nat);
    }
    p
}

impl ExternalProcessMutator {
    /// Mutates an input of bytes, given what the exchange of [`bytes_fields`] returned: the reply
    /// carries exactly one field (the bytes).
    pub fn mutate<I: HasMutatorBytes + ResizableMutator>(
        &self,
        input: &mut I,
        exchanged: Result<Option<Vec<Vec<u8>>>, Error>,
        max_size: usize,
    ) -> (result: Result<MutationResult, Error>)
        ensures
            match exchanged {
                Err(err) => result == Err::<MutationResult, Error>(err) && *final(input) == *old(input),
                Ok(None) => result == Ok::<MutationResult, Error>(MutationResult::Skipped)
                    && *final(input) == *old(input),
                Ok(Some(reply)) => match new_bytes(views(reply@), max_size as nat) {
                    Some(bytes) => result == Ok::<MutationResult, Error>(MutationResult::Mutated)
                        && final(input).bytes() == bytes && final(input).rest() == old(input).rest(),
                    None => result == Ok::<MutationResult, Error>(MutationResult::Skipped)
                        && *final(input) == *old(input),
                },
            },
            result == Ok::<MutationResult, Error>(MutationResult::Mutated) ==> {
                &&& exchanged matches Ok(Some(reply)) && views(reply@) == seq![final(input).bytes()]
                &&& 0 < final(input).bytes().len() <= max_size
                &&& final(input).rest() == old(input).rest()
            },
            result != Ok::<MutationResult, Error>(MutationResult::Mutated) ==> *final(input)
                == *old(input),
    {
        let reply: Vec<Vec<u8>> = match exchanged {
            Err(err) => {
                return Err(err);
            },
            Ok(None) => {
                return Ok(MutationResult::Skipped);
            },
            Ok(Some(reply)) => reply,
        };
        if reply.len() != 1 {
            return Ok(MutationResult::Skipped);
        }
        assert(views(reply@)[0] == reply@[0]@);
        let mutated: &[u8] = reply[0].as_slice();
        if mutated.len() == 0 || self.exceeds_max_size(mutated.len(), max_size) {
            return Ok(MutationResult::Skipped);
        }
        set_bytes(input, mutated);
        assert(views(reply@) =~= seq![input.bytes()]);
        Ok(MutationResult::Mutated)
    }

    /// Mutates an input of several parts, given the `Debug` form of the key of each, and what the
    /// exchange of [`multipart_fields`] returned: the reply carries a pair of fields for each part,
    /// the key and the part's bytes.
    ///
    /// Since keys can't be created from strings, each key in the reply has to match one of the
    /// input's keys. Hence, the external mutator can change the parts' bytes, and reorder, remove,
    /// or duplicate parts, but it can't introduce new keys.
    pub fn mutate_multipart<I: HasMutatorBytes + ResizableMutator + Clone, K: Clone>(
        &self,
        input: &mut MultipartInput<I, K>,
        keys: &Vec<String>,
        exchanged: Result<Option<Vec<Vec<u8>>>, Error>,
        max_size: usize,
    ) -> (result: Result<MutationResult, Error>)
        requires
            keys@.len() == old(input)@.len(),
        ensures
            match exchanged {
                Err(err) => result == Err::<MutationResult, Error>(err) && *final(input) == *old(input),
                Ok(None) => result == Ok::<MutationResult, Error>(MutationResult::Skipped)
                    && *final(input) == *old(input),
                Ok(Some(reply)) => if describes_parts(
                    views(reply@),
                    key_views(keys@),
                    max_size as nat,
                ) {
                    &&& result == Ok::<MutationResult, Error>(MutationResult::Mutated)
                    &&& parts_follow(
                        final(input)@,
                        old(input)@,
                        key_views(keys@),
                        views(reply@),
                    )
                } else {
                    &&& result == Ok::<MutationResult, Error>(MutationResult::Skipped)
                    &&& *final(input) == *old(input)
                },
            },
            result == Ok::<MutationResult, Error>(MutationResult::Mutated) ==> {
                &&& final(input)@.len() > 0
                &&& forall|j: int|
                    0 <= j < final(input)@.len() ==> (#[trigger] final(input)@[j]).1.bytes().len()
                        <= max_size
                &&& exchanged matches Ok(Some(reply)) && reply@.len() == 2 * final(input)@.len()
                    && forall|j: int|
                    0 <= j < final(input)@.len() ==> (#[trigger] final(input)@[j]).1.bytes()
                        == reply@[2 * j + 1]@
            },
            result != Ok::<MutationResult, Error>(MutationResult::Mutated) ==> *final(input)
                == *old(input),
    {
        let reply: Vec<Vec<u8>> = match exchanged {
            Err(err) => {
                return Err(err);
            },
            Ok(None) => {
                return Ok(MutationResult::Skipped);
            },
            Ok(Some(reply)) => reply,
        };
        if reply.len() == 0 || reply.len() % 2 != 0 {
            return Ok(MutationResult::Skipped);
        }
        let ghost texts = views(reply@);
        let ghost names = key_views(keys@);
        let mut parts: Vec<(K, I)> = Vec::with_capacity(reply.len() / 2);
        let mut j: usize = 0;
        while j < reply.len() / 2
            invariant
                exchanged == Ok::<Option<Vec<Vec<u8>>>, Error>(Some(reply)),
                texts == views(reply@),
                names == key_views(keys@),
                reply@.len() % 2 == 0,
                keys@.len() == input@.len(),
                *input == *old(input),
                j <= reply@.len() / 2,
                parts@.len() == j,
                forall|i: int|
                    0 <= i < j ==> pair_is_usable(
                        #[trigger] texts[2 * i],
                        texts[2 * i + 1],
                        names,
                        max_size as nat,
                    ),
                forall|i: int|
                    0 <= i < j ==> made_from(
                        #[trigger] parts@[i],
                        input@[key_index(names, texts[2 * i]) as int],
                        texts[2 * i + 1],
                    ),
            decreases reply@.len() / 2 - j,
        {
            let key: &[u8] = reply[2 * j].as_slice();
            let bytes: &[u8] = reply[2 * j + 1].as_slice();
            assert(texts[2 * j] == key@ && texts[2 * j + 1] == bytes@);
            let idx: usize = find_key(keys, key);
            if idx == keys.len() || self.exceeds_max_size(bytes.len(), max_size) {
                assert(!pair_is_usable(texts[2 * j], texts[2 * j + 1], names, max_size as nat));
                return Ok(MutationResult::Skipped);
            }
            let template: &(K, I) = &input.parts()[idx];
            let mut part: I = template.1.clone();
            let ghost copy = part;
            set_bytes(&mut part, bytes);
            assert(cloned(template.1, copy));
            let name: K = template.0.clone();
            parts.push((name, part));
            j += 1;
        }
        proof {
            assert forall|i: int| 0 <= i < parts@.len() implies (#[trigger] parts@[i]).1.bytes()
                == texts[2 * i + 1] && texts[2 * i + 1].len() <= max_size by {
                assert(made_from(
                    parts@[i],
                    input@[key_index(names, texts[2 * i]) as int],
                    texts[2 * i + 1],
                ));
                assert(pair_is_usable(texts[2 * i], texts[2 * i + 1], names, max_size as nat));
            }
        }
        *input = MultipartInput::new(parts);
        Ok(MutationResult::Mutated)
    }

    /// Nothing is left to do after the target has been executed.
    pub fn post_exec(&mut self) -> (result: Result<(), Error>)
        ensures
            result is Ok,
            *final(self) == *old(self),
    {
        Ok(())
    }
}

/// If the bytes of an input are replaced, they change: a reply that holds the bytes of the input is
/// never applied.
pub proof fn law_mutated_bytes_differ(
    m: MutatorModel,
    bytes: Seq<u8>,
    events: Seq<EventModel>,
    reply: Seq<Seq<u8>>,
    max_size: nat,
)
    requires
        is_run(m, seq![bytes], events),
        run(m, seq![bytes], events).action == ActionModel::Finish(Ok(Some(reply))),
    ensures
        new_bytes(reply, max_size) matches Some(mutated) ==> mutated != bytes,
{
    law_replies_answer_the_request(m, seq![bytes], events);
    if reply.len() == 1 && reply[0] == bytes {
        assert(reply =~= seq![bytes]);
    }
}

/// A running process that answers with other bytes, at least one and not more than the max size,
/// gets them applied.
pub proof fn law_valid_bytes_are_applied(
    m: MutatorModel,
    bytes: Seq<u8>,
    mutated: Seq<u8>,
    max_size: nat,
)
    requires
        m.process is Some,
        mutated != bytes,
        0 < mutated.len() <= max_size,
    ensures
        ({
            let line = request_line(m.next_id, seq![mutated]).drop_last();
            let events = seq![
                EventModel::NoOutput,
                EventModel::Output(Output::Stdout(line)),
                EventModel::NoOutput,
            ];
            &&& is_run(m, seq![bytes], events)
            &&& run(m, seq![bytes], events).action == ActionModel::Finish(
                Ok(Some(seq![mutated])),
            )
            &&& new_bytes(seq![mutated], max_size) == Some(mutated)
        }),
{
    assert(seq![mutated][0] == mutated);
    assert(seq![bytes][0] == bytes);
    law_good_replies_are_returned(m, seq![bytes], seq![mutated]);
}

/// Every key that a usable reply names is one of the input's keys, and the one that is found is the
/// first of those.
pub proof fn law_keys_are_known(
    reply: Seq<Seq<u8>>,
    keys: Seq<Seq<u8>>,
    max_size: nat,
    j: int,
)
    requires
        describes_parts(reply, keys, max_size),
        0 <= j < reply.len() / 2,
    ensures
        ({
            let k = key_index(keys, reply[2 * j]) as int;
            &&& 0 <= k < keys.len()
            &&& keys[k] == reply[2 * j]
            &&& forall|i: int| 0 <= i < k ==> #[trigger] keys[i] != reply[2 * j]
        }),
{
    assert(pair_is_usable(reply[2 * j], reply[2 * j + 1], keys, max_size));
    lemma_key_index(keys, reply[2 * j]);
}

/// Any reply that names known keys is usable, whichever it names, in whatever order and however
/// often, if it names at least one and no bytes exceed the max size: parts may be changed, reordered,
/// removed, or duplicated.
pub proof fn law_known_keys_are_usable(
    reply: Seq<Seq<u8>>,
    keys: Seq<Seq<u8>>,
    choice: Seq<int>,
    max_size: nat,
)
    requires
        choice.len() > 0,
        reply.len() == 2 * choice.len(),
        forall|j: int| 0 <= j < choice.len() ==> 0 <= #[trigger] choice[j] < keys.len(),
        forall|j: int| 0 <= j < choice.len() ==> reply[2 * j] == keys[#[trigger] choice[j]],
        forall|i: int| 0 <= i < reply.len() && i % 2 == 1 ==> #[trigger] reply[i].len() <= max_size,
    ensures
        describes_parts(reply, keys, max_size),
{
    assert forall|j: int| 0 <= j < reply.len() / 2 implies pair_is_usable(
        #[trigger] reply[2 * j],
        reply[2 * j + 1],
        keys,
        max_size,
    ) by {
        assert(reply[2 * j] == keys[choice[j]]);
        lemma_key_index(keys, reply[2 * j]);
        assert((2 * j + 1) % 2 == 1);
    }
}

/// The input that is made from a reply is described by just that reply, as long as the copies of
/// the keys have the same `Debug` form. So a reply that differs from the request changes the input.
pub proof fn law_new_parts_read_back<I: HasMutatorBytes + Clone, K: Clone>(
    parts: Seq<(K, I)>,
    input: Seq<(K, I)>,
    keys: Seq<Seq<u8>>,
    new_keys: Seq<Seq<u8>>,
    reply: Seq<Seq<u8>>,
    max_size: nat,
)
    requires
        describes_parts(reply, keys, max_size),
        parts_follow(parts, input, keys, reply),
        new_keys.len() == parts.len(),
        forall|j: int|
            0 <= j < parts.len() ==> #[trigger] new_keys[j] == keys[key_index(
                keys,
                reply[2 * j],
            ) as int],
    ensures
        part_fields(parts, new_keys) == reply,
{
    assert forall|i: int| 0 <= i < reply.len() implies part_fields(parts, new_keys)[i]
        == reply[i] by {
        let j = i / 2;
        assert(i == 2 * j || i == 2 * j + 1);
        assert(made_from(
            parts[j],
            input[key_index(keys, reply[2 * j]) as int],
            reply[2 * j + 1],
        ));
        law_keys_are_known(reply, keys, max_size, j);
        assert(new_keys[j] == reply[2 * j]);
    }
    assert(part_fields(parts, new_keys) =~= reply);
}

/// The new bytes of an input are those of a reply with exactly one field, at least one of them and
/// not more than the max size; any other reply holds none.
pub proof fn law_new_bytes(reply: Seq<Seq<u8>>, max_size: nat)
    ensures
        forall|bytes: Seq<u8>| #[trigger]
            new_bytes(reply, max_size) == Some(bytes) <==> reply == seq![bytes] && 0 < bytes.len()
                <= max_size,
        reply.len() != 1 ==> new_bytes(reply, max_size) is None,
{
    assert forall|bytes: Seq<u8>| #[trigger]
        new_bytes(reply, max_size) == Some(bytes) <==> reply == seq![bytes] && 0 < bytes.len()
            <= max_size by {
        if reply.len() == 1 {
            assert(reply =~= seq![reply[0]]);
        }
    }
}

/// A reply describes new parts exactly if it is made of pairs, at least one, and in each of them the
/// first field is the key of some part of the input, and the second has no more bytes than the max
/// size.
pub proof fn law_usable_replies(reply: Seq<Seq<u8>>, keys: Seq<Seq<u8>>, max_size: nat)
    ensures
        describes_parts(reply, keys, max_size) <==> {
            &&& reply.len() > 0
            &&& reply.len() % 2 == 0
            &&& forall|i: int|
                0 <= i < reply.len() && i % 2 == 0 ==> keys.contains(#[trigger] reply[i])
            &&& forall|i: int|
                0 <= i < reply.len() && i % 2 == 1 ==> (#[trigger] reply[i]).len() <= max_size
        },
{
    if describes_parts(reply, keys, max_size) {
        assert forall|i: int| 0 <= i < reply.len() && i % 2 == 0 implies keys.contains(
            #[trigger] reply[i],
        ) by {
            law_keys_are_known(reply, keys, max_size, i / 2);
            assert(2 * (i / 2) == i);
            assert(keys[key_index(keys, reply[i]) as int] == reply[i]);
        }
        assert forall|i: int| 0 <= i < reply.len() && i % 2 == 1 implies (
        #[trigger] reply[i]).len() <= max_size by {
            let j = i / 2;
            assert(2 * j + 1 == i);
            assert(pair_is_usable(reply[2 * j], reply[2 * j + 1], keys, max_size));
        }
    } else if reply.len() > 0 && reply.len() % 2 == 0 {
        let j = choose|j: int|
            0 <= j < reply.len() / 2 && !pair_is_usable(
                #[trigger] reply[2 * j],
                reply[2 * j + 1],
                keys,
                max_size,
            );
        assert((2 * j) % 2 == 0 && (2 * j + 1) % 2 == 1);
        lemma_key_index(keys, reply[2 * j]);
        if keys.contains(reply[2 * j]) {
            let k = choose|k: int| 0 <= k < keys.len() && keys[k] == reply[2 * j];
            assert(keys[k] == reply[2 * j]);
        }
        assert(!keys.contains(reply[2 * j]) || reply[2 * j + 1].len() > max_size);
    }
}

/// Every new part has the bytes that the reply gives for it, no more than the max size, and is made
/// from the first part of the input whose key has the `Debug` form that the reply names.
pub proof fn law_new_parts<I: HasMutatorBytes + Clone, K: Clone>(
    parts: Seq<(K, I)>,
    input: Seq<(K, I)>,
    keys: Seq<Seq<u8>>,
    reply: Seq<Seq<u8>>,
    max_size: nat,
    j: int,
)
    requires
        describes_parts(reply, keys, max_size),
        parts_follow(parts, input, keys, reply),
        keys.len() == input.len(),
        0 <= j < reply.len() / 2,
    ensures
        2 * parts.len() == reply.len(),
        parts[j].1.bytes() == reply[2 * j + 1],
        parts[j].1.bytes().len() <= max_size,
        exists|k: int|
            0 <= k < input.len() && #[trigger] keys[k] == reply[2 * j] && (forall|i: int|
                0 <= i < k ==> #[trigger] keys[i] != reply[2 * j]) && cloned(
                input[k].0,
                parts[j].0,
            ) && exists|copy: I| #[trigger]
                cloned(input[k].1, copy) && parts[j].1.rest() == copy.rest(),
{
    let k = key_index(keys, reply[2 * j]) as int;
    law_keys_are_known(reply, keys, max_size, j);
    assert(made_from(parts[j], input[k], reply[2 * j + 1]));
    assert(pair_is_usable(reply[2 * j], reply[2 * j + 1], keys, max_size));
    assert(keys[k] == reply[2 * j]);
}

/// The fields of an input are the keys and the bytes of its parts, in turn and in order.
pub proof fn law_part_fields<I: HasMutatorBytes, K>(
    parts: Seq<(K, I)>,
    keys: Seq<Seq<u8>>,
    i: int,
)
    requires
        0 <= i < parts.len(),
    ensures
        part_fields(parts, keys).len() == 2 * parts.len(),
        part_fields(parts, keys)[2 * i] == keys[i],
        part_fields(parts, keys)[2 * i + 1] == parts[i].1.bytes(),
{
    assert((2 * i) % 2 == 0 && (2 * i) / 2 == i);
    assert((2 * i + 1) % 2 == 1 && (2 * i + 1) / 2 == i);
}

/// The bytes of a key are the UTF-8 form of its text.
pub proof fn law_key_views(keys: Seq<String>)
    ensures
        key_views(keys).len() == keys.len(),
        forall|i: int| 0 <= i < keys.len() ==> #[trigger] key_views(keys)[i] == encode_utf8(keys[i]@),
{
}

} // verus!
