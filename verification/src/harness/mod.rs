//! The target of the example fuzzer: a harness with an artificial bug, and its coverage map.
use vstd::prelude::*;

pub mod multipart;
pub mod plain;

verus! {

/// The number of entries in the coverage map.
pub const SIGNALS_LEN: usize = 16;

/// How far `buf` agrees with the input that triggers the bug, `abc`.
pub open spec fn depth(buf: Seq<u8>) -> nat {
    if buf.len() > 0 && buf[0] == 97 {
        if buf.len() > 1 && buf[1] == 98 {
            if buf.len() > 2 && buf[2] == 99 {
                3
            } else {
                2
            }
        } else {
            1
        }
    } else {
        0
    }
}

/// `signals` after an execution: the entries up to the depth that the input reached are 1, the
/// others are as they were. Triggering the bug sets no further entry.
pub open spec fn signalled(signals: Seq<u8>, depth: nat) -> Seq<u8> {
    Seq::new(
        signals.len(),
        |i: int|
            if i <= depth && i < 3 {
                1
            } else {
                signals[i]
            },
    )
}

/// Assigns a signal to the signals map.
pub fn signals_set(signals: &mut [u8], idx: usize)
    requires
        idx < old(signals)@.len(),
    ensures
        final(signals)@ == old(signals)@.update(idx as int, 1),
{
    signals[idx] = 1;
}

/// The closure that we want to fuzz. Returns whether the artificial bug is triggered.
pub fn harness(buf: &[u8], signals: &mut [u8]) -> (bug: bool)
    requires
        old(signals)@.len() >= 3,
    ensures
        bug == (depth(buf@) == 3),
        final(signals)@ == signalled(old(signals)@, depth(buf@)),
{
    let ghost before = signals@;
    signals_set(signals, 0);
    if buf.len() > 0 && buf[0] == 97 {
        signals_set(signals, 1);
        if buf.len() > 1 && buf[1] == 98 {
            signals_set(signals, 2);
            assert(signals@ =~= signalled(before, depth(buf@)));
            return buf.len() > 2 && buf[2] == 99;
        }
    }
    assert(signals@ =~= signalled(before, depth(buf@)));
    false
}

/// The bug is triggered by exactly those inputs that start with `abc`.
pub proof fn law_bug_needs_abc(buf: Seq<u8>)
    ensures
        depth(buf) == 3 <==> seq![97u8, 98u8, 99u8].is_prefix_of(buf),
{
    let abc = seq![97u8, 98u8, 99u8];
    if abc.is_prefix_of(buf) {
        assert(abc[0] == buf[0] && abc[1] == buf[1] && abc[2] == buf[2]);
    }
    if depth(buf) == 3 {
        assert(buf.subrange(0, 3) =~= abc);
    }
}

/// An execution sets the first entry of the map, the second if the input starts with `a`, and the
/// third if it starts with `ab`. All other entries stay as they are.
pub proof fn law_signals(signals: Seq<u8>, buf: Seq<u8>, i: int)
    requires
        3 <= signals.len(),
        0 <= i < signals.len(),
    ensures
        ({
            let after = signalled(signals, depth(buf));
            &&& after.len() == signals.len()
            &&& i == 0 ==> after[i] == 1
            &&& i == 1 ==> after[i] == if seq![97u8].is_prefix_of(buf) {
                1
            } else {
                signals[i]
            }
            &&& i == 2 ==> after[i] == if seq![97u8, 98u8].is_prefix_of(buf) {
                1
            } else {
                signals[i]
            }
            &&& i > 2 ==> after[i] == signals[i]
        }),
{
    let a = seq![97u8];
    let ab = seq![97u8, 98u8];
    if a.is_prefix_of(buf) {
        assert(a[0] == buf[0]);
    }
    if ab.is_prefix_of(buf) {
        assert(ab[0] == buf[0] && ab[1] == buf[1]);
    }
    if buf.len() > 0 && buf[0] == 97 {
        assert(buf.subrange(0, 1) =~= a);
        if buf.len() > 1 && buf[1] == 98 {
            assert(buf.subrange(0, 2) =~= ab);
        }
    }
}

} // verus!
