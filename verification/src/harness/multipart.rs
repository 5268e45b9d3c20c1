//! The example fuzzer with inputs of multiple parts, identified by `String` keys.
use vstd::prelude::*;
use crate::inputs::{BytesInput, HasMutatorBytes, MultipartInput};

verus! {

/// The key of the parts the harness ignores.
pub const HEADER_KEY: &'static str = "header";

/// The key of the parts the harness looks at.
pub const PAYLOAD_KEY: &'static str = "payload";

/// The bytes of all parts with the payload key, in order.
pub open spec fn payload(parts: Seq<(String, BytesInput)>) -> Seq<u8>
    decreases parts.len(),
{
    if parts.len() == 0 {
        Seq::empty()
    } else {
        payload(parts.drop_last()) + if parts.last().0@ == PAYLOAD_KEY@ {
            parts.last().1@
        } else {
            Seq::empty()
        }
    }
}

/// The bytes the harness looks at: all `payload` parts, concatenated (other parts are ignored).
pub fn harness_bytes(input: &MultipartInput<BytesInput, String>) -> (bytes: Vec<u8>)
    ensures
        bytes@ == payload(input@),
{
    let parts = input.parts();
    let key: String = PAYLOAD_KEY.to_owned();
    let mut bytes: Vec<u8> = Vec::new();
    let mut i: usize = 0;
    while i < parts.len()
        invariant
            parts@ == input@,
            key@ == PAYLOAD_KEY@,
            i <= parts@.len(),
            bytes@ == payload(parts@.take(i as int)),
        decreases parts@.len() - i,
    {
        proof {
            assert(parts@.take(i + 1).drop_last() =~= parts@.take(i as int));
            assert(parts@.take(i + 1).last() == parts@[i as int]);
        }
        let ghost before = bytes@;
        if parts[i].0 == key {
            let part: &[u8] = parts[i].1.mutator_bytes();
            bytes.extend_from_slice(part);
            assert(bytes@ =~= before + part@);
        } else {
            assert(before + Seq::<u8>::empty() =~= before);
        }
        i += 1;
    }
    assert(parts@.take(i as int) =~= parts@);
    bytes
}

/// Makes an input of a `header` and a `payload` part.
pub fn generate(header: BytesInput, payload: BytesInput) -> (input: MultipartInput<
    BytesInput,
    String,
>)
    ensures
        input@.len() == 2,
        input@[0].0@ == HEADER_KEY@ && input@[0].1 == header,
        input@[1].0@ == PAYLOAD_KEY@ && input@[1].1 == payload,
{
    let mut parts: Vec<(String, BytesInput)> = Vec::new();
    parts.push((HEADER_KEY.to_owned(), header));
    parts.push((PAYLOAD_KEY.to_owned(), payload));
    MultipartInput::new(parts)
}

/// The harness sees the bytes of the parts with the payload key, one part after the other, and
/// nothing of any other part.
pub proof fn law_payload_of_parts(
    a: Seq<(String, BytesInput)>,
    b: Seq<(String, BytesInput)>,
    part: (String, BytesInput),
)
    ensures
        payload(a + b) == payload(a) + payload(b),
        part.0@ == "payload"@ ==> payload(seq![part]) == part.1@,
        part.0@ != "payload"@ ==> payload(seq![part]) == Seq::<u8>::empty(),
    decreases b.len(),
{
    let one = seq![part];
    assert(one.drop_last() =~= Seq::<(String, BytesInput)>::empty());
    assert(payload(Seq::<(String, BytesInput)>::empty()) =~= Seq::<u8>::empty());
    assert(payload(one) =~= if part.0@ == "payload"@ {
        part.1@
    } else {
        Seq::empty()
    });
    if b.len() == 0 {
        assert(a + b =~= a);
        assert(payload(a) + payload(b) =~= payload(a));
    } else {
        assert((a + b).drop_last() =~= a + b.drop_last());
        law_payload_of_parts(a, b.drop_last(), part);
        assert(payload(a + b) =~= payload(a) + payload(b));
    }
}

} // verus!
