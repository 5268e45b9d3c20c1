//! Cutting what the external program writes into lines.
use vstd::prelude::*;
use crate::bytes::{find, lemma_find, lemma_find_is, position, split_on, views};
use crate::protocol::{CARRIAGE_RETURN, NEWLINE};

verus! {

/// `line` without the carriage returns at its end.
pub open spec fn without_returns(line: Seq<u8>) -> Seq<u8>
    decreases line.len(),
{
    if line.len() > 0 && line.last() == CARRIAGE_RETURN {
        without_returns(line.drop_last())
    } else {
        line
    }
}

/// The complete lines of `buf`, without their terminators.
pub open spec fn complete_lines(buf: Seq<u8>) -> Seq<Seq<u8>>
    decreases buf.len(),
{
    if find(buf, NEWLINE) < buf.len() {
        seq![without_returns(buf.take(find(buf, NEWLINE) as int))] + complete_lines(
            buf.skip(find(buf, NEWLINE) as int + 1),
        )
    } else {
        Seq::empty()
    }
}

/// What follows the last complete line of `buf`.
pub open spec fn partial_line(buf: Seq<u8>) -> Seq<u8>
    decreases buf.len(),
{
    if find(buf, NEWLINE) < buf.len() {
        partial_line(buf.skip(find(buf, NEWLINE) as int + 1))
    } else {
        buf
    }
}

/// `line` without the one carriage return that may stand at its end.
pub open spec fn without_return(line: Seq<u8>) -> Seq<u8> {
    if line.len() > 0 && line.last() == CARRIAGE_RETURN {
        line.drop_last()
    } else {
        line
    }
}

/// Those of the `pieces` that are not empty, each without the carriage return at its end.
pub open spec fn nonempty_lines(pieces: Seq<Seq<u8>>) -> Seq<Seq<u8>>
    decreases pieces.len(),
{
    if pieces.len() == 0 {
        Seq::empty()
    } else {
        let first = without_return(pieces[0]);
        let rest = nonempty_lines(pieces.skip(1));
        if first.len() == 0 {
            rest
        } else {
            seq![first] + rest
        }
    }
}

/// Removes the line terminator at the end of a line: the newline, and every carriage return before
/// it.
fn strip_terminator(line: &mut Vec<u8>)
    requires
        old(line)@.len() > 0,
        old(line)@.last() == NEWLINE,
        find(old(line)@, NEWLINE) == old(line)@.len() - 1,
    ensures
        final(line)@ == without_returns(old(line)@.drop_last()),
{
    proof {
        lemma_find(line@, NEWLINE);
    }
    let ghost whole = line@;
    let mut popped: bool = false;
    while line.len() > 0 && (line[line.len() - 1] == NEWLINE || line[line.len() - 1]
        == CARRIAGE_RETURN)
        invariant
            whole.len() > 0,
            forall|i: int| 0 <= i < whole.len() - 1 ==> #[trigger] whole[i] != NEWLINE,
            !popped ==> line@ == whole,
            popped ==> line@.len() < whole.len() && line@ == whole.take(line@.len() as int)
                && without_returns(line@) == without_returns(whole.drop_last()),
            whole.last() == NEWLINE,
        decreases line@.len(),
    {
        let ghost before = line@;
        line.pop();
        proof {
            assert(line@ =~= before.drop_last());
            assert(line@ =~= whole.take(line@.len() as int));
            if popped {
                assert(before.last() == whole[before.len() - 1]);
            }
        }
        popped = true;
    }
    proof {
        assert(popped);
    }
}

/// Moves all complete lines (without line terminators) out of `buf`, leaving a trailing partial
/// line.
pub fn take_lines(buf: &mut Vec<u8>) -> (lines: Vec<Vec<u8>>)
    ensures
        views(lines@) == complete_lines(old(buf)@),
        final(buf)@ == partial_line(old(buf)@),
{
    let ghost whole = buf@;
    let mut lines: Vec<Vec<u8>> = Vec::new();
    assert(views(lines@) + complete_lines(buf@) =~= complete_lines(whole));
    let mut pos: usize = position(buf.as_slice(), NEWLINE);
    while pos < buf.len()
        invariant
            pos == find(buf@, NEWLINE),
            pos <= buf@.len(),
            pos < buf@.len() ==> buf@[pos as int] == NEWLINE,
            views(lines@) + complete_lines(buf@) == complete_lines(whole),
            partial_line(buf@) == partial_line(whole),
        decreases buf@.len(),
    {
        let ghost before = buf@;
        let ghost done = views(lines@);
        let mut line: Vec<u8> = buf.split_off(pos + 1);
        core::mem::swap(buf, &mut line);
        proof {
            lemma_find(before, NEWLINE);
            assert(buf@ =~= before.skip(pos + 1));
            assert(line@ =~= before.take(pos + 1));
            assert forall|i: int| 0 <= i < pos implies #[trigger] line@[i] != NEWLINE by {
                assert(line@[i] == before[i]);
            }
            lemma_find_is(line@, NEWLINE, pos as nat);
            assert(line@.drop_last() =~= before.take(pos as int));
        }
        strip_terminator(&mut line);
        lines.push(line);
        proof {
            assert(views(lines@) =~= done.push(line@));
            assert(views(lines@) + complete_lines(buf@) =~= done + complete_lines(before));
        }
        pos = position(buf.as_slice(), NEWLINE);
    }
    assert(views(lines@) =~= complete_lines(whole));
    lines
}

/// The lines in a chunk that was read from `stderr`, including partial ones, but no empty ones.
pub fn chunk_lines(chunk: &[u8]) -> (lines: Vec<Vec<u8>>)
    ensures
        views(lines@) == nonempty_lines(split_on(chunk@, NEWLINE)),
{
    let mut lines: Vec<Vec<u8>> = Vec::new();
    let ghost whole = nonempty_lines(split_on(chunk@, NEWLINE));
    let mut start: usize = 0;
    proof {
        assert(chunk@.skip(0) =~= chunk@);
        assert(views(lines@) + whole =~= whole);
    }
    loop
        invariant
            start <= chunk@.len(),
            whole == nonempty_lines(split_on(chunk@, NEWLINE)),
            views(lines@) + nonempty_lines(split_on(chunk@.skip(start as int), NEWLINE)) == whole,
        decreases chunk@.len() - start,
    {
        let rest = vstd::slice::slice_subrange(chunk, start, chunk.len());
        assert(rest@ =~= chunk@.skip(start as int));
        let p: usize = position(rest, NEWLINE);
        let ghost pieces = split_on(rest@, NEWLINE);
        let ghost done = views(lines@);
        let ghost piece = rest@.take(p as int);
        proof {
            assert(p == rest@.len() ==> piece =~= rest@);
            assert(pieces[0] == piece);
        }
        let end: usize = if p > 0 && rest[p - 1] == CARRIAGE_RETURN { p - 1 } else { p };
        proof {
            assert(rest@.subrange(0, end as int) =~= without_return(piece));
        }
        if end > 0 {
            let line: Vec<u8> = vstd::slice::slice_to_vec(
                vstd::slice::slice_subrange(rest, 0, end),
            );
            lines.push(line);
            assert(views(lines@) =~= done.push(without_return(piece)));
        }
        proof {
            assert(views(lines@) + nonempty_lines(pieces.skip(1)) =~= done + nonempty_lines(pieces));
        }
        if p == rest.len() {
            proof {
                assert(pieces.skip(1) =~= Seq::<Seq<u8>>::empty());
                assert(views(lines@) + Seq::<Seq<u8>>::empty() =~= views(lines@));
            }
            return lines;
        }
        proof {
            assert(pieces.skip(1) =~= split_on(rest@.skip(p + 1), NEWLINE));
            assert(rest@.skip(p + 1) =~= chunk@.skip(start + p + 1));
        }
        start = start + p + 1;
    }
}

/// The lines do not depend on how the text is cut into chunks: taking the complete lines of `a`,
/// and then those of what is left of it together with `b`, is taking the lines of both at once.
pub proof fn law_lines_across_chunks(a: Seq<u8>, b: Seq<u8>)
    ensures
        complete_lines(a) + complete_lines(partial_line(a) + b) == complete_lines(a + b),
        partial_line(partial_line(a) + b) == partial_line(a + b),
    decreases a.len(),
{
    lemma_find(a, NEWLINE);
    let p = find(a, NEWLINE);
    if p < a.len() {
        let rest = a.skip(p as int + 1);
        law_lines_across_chunks(rest, b);
        assert forall|i: int| 0 <= i < p implies #[trigger] (a + b)[i] != NEWLINE by {
            assert((a + b)[i] == a[i]);
        }
        lemma_find_is(a + b, NEWLINE, p);
        assert((a + b).take(p as int) =~= a.take(p as int));
        assert((a + b).skip(p as int + 1) =~= rest + b);
        assert(complete_lines(a) + complete_lines(partial_line(a) + b) =~= complete_lines(a + b));
    } else {
        assert(complete_lines(a) + complete_lines(a + b) =~= complete_lines(a + b));
    }
}

/// No line that was taken holds a newline, and no carriage return stands at its end; what is left
/// holds no newline either.
pub proof fn law_lines_are_clean(buf: Seq<u8>)
    ensures
        forall|i: int|
            0 <= i < complete_lines(buf).len() ==> is_clean_line(#[trigger] complete_lines(buf)[i]),
        forall|i: int| 0 <= i < partial_line(buf).len() ==> #[trigger] partial_line(buf)[i] != NEWLINE,
    decreases buf.len(),
{
    lemma_find(buf, NEWLINE);
    let p = find(buf, NEWLINE);
    if p < buf.len() {
        let rest = buf.skip(p as int + 1);
        law_lines_are_clean(rest);
        lemma_without_returns(buf.take(p as int));
        let lines = complete_lines(buf);
        assert forall|i: int| 0 <= i < lines.len() implies is_clean_line(#[trigger] lines[i]) by {
            if i > 0 {
                assert(lines[i] == complete_lines(rest)[i - 1]);
            }
        }
        assert(partial_line(buf) == partial_line(rest));
    } else {
        assert(partial_line(buf) == buf);
        assert(p == buf.len());
    }
}

/// Whether nothing that belongs to a line terminator is left in `line`.
pub open spec fn is_clean_line(line: Seq<u8>) -> bool {
    &&& forall|i: int| 0 <= i < line.len() ==> #[trigger] line[i] != NEWLINE
    &&& line.len() > 0 ==> line.last() != CARRIAGE_RETURN
}

proof fn lemma_without_returns(line: Seq<u8>)
    requires
        forall|i: int| 0 <= i < line.len() ==> #[trigger] line[i] != NEWLINE,
    ensures
        is_clean_line(without_returns(line)),
    decreases line.len(),
{
    if line.len() > 0 && line.last() == CARRIAGE_RETURN {
        lemma_without_returns(line.drop_last());
    }
}

} // verus!
