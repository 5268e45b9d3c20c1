//! What becomes of the output of the external program.
use vstd::prelude::*;
use crate::bytes::split_on;
use crate::lines::{
    complete_lines, nonempty_lines, partial_line, without_return, without_returns,
};
use crate::protocol::{CARRIAGE_RETURN, NEWLINE};
use crate::reader::{
    after_poll, after_stderr, after_stdout, next_pipe, reported_lines, stderr_lines, stdout_lines,
    NextRead, Output, ReaderState, Reading,
};

verus! {

/// The lines of a text are what stands between its newlines: all of that but the last piece are
/// complete lines, without the carriage returns at their ends, and the last piece is the partial line.
pub proof fn law_lines_are_pieces(buf: Seq<u8>)
    ensures
        ({
            let pieces = split_on(buf, NEWLINE);
            &&& complete_lines(buf).len() == pieces.len() - 1
            &&& forall|i: int|
                0 <= i < complete_lines(buf).len() ==> #[trigger] complete_lines(buf)[i]
                    == without_returns(pieces[i])
            &&& partial_line(buf) == pieces.last()
        }),
    decreases buf.len(),
{
    let p = crate::bytes::find(buf, NEWLINE) as int;
    if p < buf.len() {
        let rest = buf.skip(p + 1);
        law_lines_are_pieces(rest);
        let pieces = split_on(buf, NEWLINE);
        let lines = complete_lines(buf);
        assert(split_on(rest, NEWLINE).len() > 0);
        assert forall|i: int| 0 <= i < lines.len() implies #[trigger] lines[i] == without_returns(
            pieces[i],
        ) by {
            if i > 0 {
                assert(lines[i] == complete_lines(rest)[i - 1]);
                assert(pieces[i] == split_on(rest, NEWLINE)[i - 1]);
            }
        }
    }
}

/// Removing the carriage returns at the end of a line removes just these, and all of them.
pub proof fn law_returns_are_removed(line: Seq<u8>)
    ensures
        without_returns(line).len() <= line.len(),
        forall|i: int|
            0 <= i < without_returns(line).len() ==> #[trigger] without_returns(line)[i] == line[i],
        forall|i: int|
            without_returns(line).len() <= i < line.len() ==> #[trigger] line[i] == CARRIAGE_RETURN,
        without_returns(line).len() > 0 ==> without_returns(line).last() != CARRIAGE_RETURN,
        without_return(line) == line || without_return(line).push(CARRIAGE_RETURN) == line,
        without_return(line) == line <==> line.len() == 0 || line.last() != CARRIAGE_RETURN,
    decreases line.len(),
{
    if line.len() > 0 && line.last() == CARRIAGE_RETURN {
        let front = line.drop_last();
        law_returns_are_removed(front);
        assert(front.push(CARRIAGE_RETURN) =~= line);
        assert forall|i: int|
            without_returns(line).len() <= i < line.len() implies #[trigger] line[i]
            == CARRIAGE_RETURN by {
            if i < front.len() {
                assert(front[i] == line[i]);
            }
        }
    }
}

/// The lines on stderr are its pieces in order, each without one carriage return at its end, and
/// without those of which nothing is left.
pub proof fn law_stderr_lines_are_pieces(a: Seq<Seq<u8>>, b: Seq<Seq<u8>>, piece: Seq<u8>)
    ensures
        nonempty_lines(a + b) == nonempty_lines(a) + nonempty_lines(b),
        nonempty_lines(seq![piece]) == if without_return(piece).len() == 0 {
            Seq::empty()
        } else {
            seq![without_return(piece)]
        },
    decreases a.len(),
{
    let one = seq![piece];
    assert(one.skip(1) =~= Seq::<Seq<u8>>::empty());
    assert(one[0] == piece);
    assert(nonempty_lines(Seq::<Seq<u8>>::empty()) =~= Seq::<Seq<u8>>::empty());
    assert(nonempty_lines(one) =~= if without_return(piece).len() == 0 {
        Seq::empty()
    } else {
        seq![without_return(piece)]
    });
    if a.len() == 0 {
        assert(a + b =~= b);
        assert(nonempty_lines(a) + nonempty_lines(b) =~= nonempty_lines(b));
    } else {
        assert((a + b).skip(1) =~= a.skip(1) + b);
        assert((a + b)[0] == a[0]);
        law_stderr_lines_are_pieces(a.skip(1), b, piece);
        assert(nonempty_lines(a + b) =~= nonempty_lines(a) + nonempty_lines(b));
    }
}

/// What is read from stderr is reported at once, line by line, or as one empty line if there are only
/// empty ones; the state of the reader stays as it is. A pipe that ends or fails is closed, without
/// any report, and an interrupted read changes nothing.
pub proof fn law_stderr_is_reported(s: ReaderState, chunk: Seq<u8>)
    ensures
        chunk.len() > 0 ==> ({
            let lines = nonempty_lines(split_on(chunk, NEWLINE));
            let (after, events) = after_stderr(s, Reading::Read(chunk));
            &&& after == s
            &&& lines.len() > 0 ==> events.len() == lines.len() && forall|i: int|
                0 <= i < lines.len() ==> #[trigger] events[i] == Output::Stderr(lines[i])
            &&& lines.len() == 0 ==> events == seq![Output::Stderr(Seq::empty())]
        }),
        after_stderr(s, Reading::Interrupted) == (s, Seq::<Output>::empty()),
        after_stderr(s, Reading::Failed) == (
            ReaderState { stderr_open: false, ..s },
            Seq::<Output>::empty(),
        ),
        after_stderr(s, Reading::Read(Seq::empty())) == after_stderr(s, Reading::Failed),
{
    if chunk.len() > 0 && nonempty_lines(split_on(chunk, NEWLINE)).len() == 0 {
        assert(stderr_lines(reported_lines(chunk)) =~= seq![Output::Stderr(Seq::empty())]);
    }
}

/// What is read from stdout is held, line by line, and the rest is kept; a pipe that fails is treated
/// like one that ends. Nothing of this touches stderr, and an interrupted read changes nothing.
pub proof fn law_stdout_is_held(s: ReaderState, chunk: Seq<u8>, read: Reading)
    ensures
        after_stdout(s, read).stderr_open == s.stderr_open,
        chunk.len() > 0 ==> ({
            let lines = complete_lines(s.partial + chunk);
            let after = after_stdout(s, Reading::Read(chunk));
            &&& after.stdout_open == s.stdout_open
            &&& after.partial == partial_line(s.partial + chunk)
            &&& after.held.len() == s.held.len() + lines.len()
            &&& forall|i: int| 0 <= i < s.held.len() ==> #[trigger] after.held[i] == s.held[i]
            &&& forall|i: int|
                0 <= i < lines.len() ==> after.held[s.held.len() + i] == Output::Stdout(
                    #[trigger] lines[i],
                )
        }),
        after_stdout(s, Reading::Interrupted) == s,
        after_stdout(s, Reading::Failed) == after_stdout(s, Reading::Read(Seq::empty())),
        ({
            let after = after_stdout(s, Reading::Failed);
            &&& !after.stdout_open
            &&& after.partial.len() == 0
            &&& s.partial.len() == 0 ==> after.held == s.held.push(Output::StdoutClosed)
            &&& s.partial.len() > 0 ==> after.held == s.held.push(Output::Stdout(s.partial)).push(
                Output::StdoutClosed,
            )
        }),
{
    let after = after_stdout(s, Reading::Failed);
    if s.partial.len() == 0 {
        assert(after.held =~= s.held.push(Output::StdoutClosed));
    } else {
        assert(after.held =~= s.held.push(Output::Stdout(s.partial)).push(Output::StdoutClosed));
    }
    if chunk.len() > 0 {
        let lines = complete_lines(s.partial + chunk);
        let more = after_stdout(s, Reading::Read(chunk));
        assert forall|i: int| 0 <= i < lines.len() implies more.held[s.held.len() + i]
            == Output::Stdout(#[trigger] lines[i]) by {
            assert(stdout_lines(lines)[i] == Output::Stdout(lines[i]));
        }
    }
}

/// A poll forwards all held events, in order, if nothing is on stderr or it is closed, and none
/// otherwise; it loses none of them and changes nothing else.
pub proof fn law_held_events_are_forwarded(s: ReaderState, stderr_ready: bool)
    ensures
        ({
            let (after, events) = after_poll(s, stderr_ready);
            &&& events + after.held == s.held
            &&& stderr_ready && s.stderr_open ==> events.len() == 0
            &&& !stderr_ready || !s.stderr_open ==> after.held.len() == 0
            &&& after == (ReaderState { held: after.held, ..s })
        }),
{
    let (after, events) = after_poll(s, stderr_ready);
    assert(events + after.held =~= s.held);
}

/// Only a pipe that is open and ready is read from, stderr before stdout, and one is read from if
/// there is any.
pub proof fn law_next_pipe(s: ReaderState, stderr_ready: bool, stdout_ready: bool)
    ensures
        next_pipe(s, stderr_ready, stdout_ready) == NextRead::Stderr <==> s.stderr_open
            && stderr_ready,
        next_pipe(s, stderr_ready, stdout_ready) == NextRead::Stdout <==> s.stdout_open
            && stdout_ready && !(s.stderr_open && stderr_ready),
{
}

} // verus!
