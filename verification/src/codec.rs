//! The wire form of the command stream.
//!
//! The channel is a strict FIFO byte stream of newline-terminated text lines:
//! one command per line, no framing beyond the terminator, no response
//! channel. A command therefore must not contain a newline of its own.
//!
//! `stream_of` is the sender's view (the bytes a sequence of commands puts on
//! the channel) and `split_stream` is the receiver's view (the lines a
//! line-reading process observes). `lemma_stream_round_trip` ties the two
//! together: the receiver observes exactly the submitted commands, in
//! submission order.

use vstd::prelude::*;
use vstd::string::StrSliceExecFns;

verus! {

/// A command is a single line of text: it carries no newline of its own.
pub open spec fn is_command(s: Seq<char>) -> bool {
    forall|i: int| 0 <= i < s.len() ==> s[i] != '\n'
}

/// Decides whether a string may be submitted as one command: true exactly
/// when it contains no newline. What a string with an embedded newline would
/// mean on the channel is undefined, so a caller vets its input with this
/// before submitting it.
pub fn is_single_line(s: &str) -> (b: bool)
    ensures
        b == is_command(s@),
{
    let n = s.unicode_len();
    let mut i: usize = 0;
    while i < n
        invariant
            n == s@.len(),
            0 <= i <= n,
            forall|j: int| 0 <= j < i ==> s@[j] != '\n',
        decreases n - i,
    {
        if s.get_char(i) == '\n' {
            return false;
        }
        i += 1;
    }
    true
}

/// The frame of one command: the command followed by its terminator.
pub open spec fn frame_of(c: Seq<char>) -> Seq<char> {
    c.push('\n')
}

/// The bytes that a sequence of commands, sent in order, puts on the channel.
pub open spec fn stream_of(cs: Seq<Seq<char>>) -> Seq<char>
    decreases cs.len(),
{
    if cs.len() == 0 {
        Seq::empty()
    } else {
        frame_of(cs[0]) + stream_of(cs.drop_first())
    }
}

/// Sending one more command appends exactly its frame to the stream.
pub proof fn lemma_stream_of_push(cs: Seq<Seq<char>>, c: Seq<char>)
    ensures
        stream_of(cs.push(c)) == stream_of(cs) + frame_of(c),
    decreases cs.len(),
{
    if cs.len() == 0 {
        assert(cs.push(c).drop_first() =~= Seq::<Seq<char>>::empty());
        assert(cs.push(c)[0] == c);
        assert(stream_of(cs.push(c)) == frame_of(c) + stream_of(Seq::<Seq<char>>::empty()));
        assert(stream_of(cs.push(c)) =~= stream_of(cs) + frame_of(c));
    } else {
        assert(cs.push(c).drop_first() =~= cs.drop_first().push(c));
        lemma_stream_of_push(cs.drop_first(), c);
        assert(stream_of(cs.push(c)) =~= stream_of(cs) + frame_of(c));
    }
}

/// Batching changes nothing on the wire: the stream of two command
/// sequences sent back to back is the stream of the first followed by the
/// stream of the second. Commands sent one at a time therefore put exactly
/// the same bytes on the channel as the same commands sent as one batch.
pub proof fn lemma_stream_of_concat(a: Seq<Seq<char>>, b: Seq<Seq<char>>)
    ensures
        stream_of(a + b) == stream_of(a) + stream_of(b),
    decreases a.len(),
{
    if a.len() == 0 {
        assert(a + b =~= b);
        assert(stream_of(a) + stream_of(b) =~= stream_of(b));
    } else {
        assert((a + b)[0] == a[0]);
        assert((a + b).drop_first() =~= a.drop_first() + b);
        lemma_stream_of_concat(a.drop_first(), b);
        assert(stream_of(a + b) =~= stream_of(a) + stream_of(b));
    }
}

/// The number of characters before the first newline (the whole length if
/// there is none): the first line a reader takes off the stream.
pub open spec fn line_len(s: Seq<char>) -> nat
    decreases s.len(),
{
    if s.len() == 0 {
        0
    } else if s[0] == '\n' {
        0
    } else {
        1 + line_len(s.drop_first())
    }
}

/// The lines a line-reading receiver observes on the stream, in order. A
/// trailing run without a terminator is observed as a final partial line.
pub open spec fn split_stream(s: Seq<char>) -> Seq<Seq<char>>
    decreases s.len(),
{
    if s.len() == 0 {
        Seq::empty()
    } else {
        let l = line_len(s);
        if l >= s.len() {
            seq![s]
        } else {
            seq![s.take(l as int)] + split_stream(s.skip(l as int + 1))
        }
    }
}

/// The first line of a frame followed by anything is the framed command.
proof fn lemma_line_len_of_frame(c: Seq<char>, rest: Seq<char>)
    requires
        is_command(c),
    ensures
        line_len(frame_of(c) + rest) == c.len(),
    decreases c.len(),
{
    let s = frame_of(c) + rest;
    if c.len() == 0 {
        assert(s[0] == '\n');
    } else {
        assert(s[0] == c[0]);
        assert(s.drop_first() =~= frame_of(c.drop_first()) + rest);
        assert(is_command(c.drop_first()));
        lemma_line_len_of_frame(c.drop_first(), rest);
    }
}

/// Order preservation: however the commands were submitted, the receiver,
/// splitting the channel's byte stream on newline terminators, observes
/// exactly the submitted commands, in submission order.
pub proof fn lemma_stream_round_trip(cs: Seq<Seq<char>>)
    requires
        forall|i: int| 0 <= i < cs.len() ==> is_command(#[trigger] cs[i]),
    ensures
        split_stream(stream_of(cs)) == cs,
    decreases cs.len(),
{
    if cs.len() == 0 {
        assert(split_stream(stream_of(cs)) =~= cs);
    } else {
        let c = cs[0];
        let rest = stream_of(cs.drop_first());
        let s = stream_of(cs);
        assert(s == frame_of(c) + rest);
        lemma_line_len_of_frame(c, rest);
        assert(s.len() == c.len() + 1 + rest.len());
        assert(line_len(s) < s.len());
        assert(s.take(c.len() as int) =~= c);
        assert(s.skip(c.len() as int + 1) =~= rest);
        lemma_stream_round_trip(cs.drop_first());
        assert(seq![c] + split_stream(rest) =~= cs);
    }
}

/// The reserved termination command.
pub open spec fn exit_line() -> Seq<char> {
    "exit"@
}

pub proof fn lemma_exit_is_command()
    ensures
        is_command(exit_line()),
        exit_line().len() == 4,
{
    reveal_strlit("exit");
}

/// Teardown synchronization: the termination command is the last line of a
/// session's stream. A receiver that reads the channel line by line and
/// stops at the termination command has, by then, observed every submitted
/// command, in submission order — which is why waiting for the receiver to
/// exit after sending it is a sound synchronization point.
pub proof fn lemma_teardown_after_all_commands(log: Seq<Seq<char>>)
    requires
        forall|i: int| 0 <= i < log.len() ==> is_command(#[trigger] log[i]),
    ensures
        ({
            let lines = split_stream(stream_of(log.push(exit_line())));
            &&& lines == log.push(exit_line())
            &&& lines.len() == log.len() + 1
            &&& lines.last() == exit_line()
            &&& lines.drop_last() == log
        }),
{
    lemma_exit_is_command();
    let whole = log.push(exit_line());
    assert(forall|i: int| 0 <= i < whole.len() ==> is_command(#[trigger] whole[i]));
    lemma_stream_round_trip(whole);
    assert(whole.drop_last() =~= log);
}

} // verus!
