//! Lines that come in over a serial link, byte by byte.

use crate::text::{byte_len, text};
use vstd::prelude::*;
use vstd::utf8::{encode_utf8, is_ascii_chars, is_ascii_chars_encode_utf8};

verus! {

/// The byte that ends a line.
pub const NEWLINE: u8 = 10;

/// The byte that a line leaves out.
pub const RETURN: u8 = 13;

/// What a line of at most `capacity` bytes is after a byte that does not end
/// it: a carriage return is left out, and so is a character that does not fit.
pub open spec fn line_after(line: Seq<char>, byte: u8, capacity: nat) -> Seq<char> {
    if byte != RETURN && byte_len(line.push(byte as char)) <= capacity {
        line.push(byte as char)
    } else {
        line
    }
}

/// The line and the receiver's state after one more byte. At the end of a line
/// the receiver's state becomes what `at_end` makes of it and of the line, and
/// the next line starts empty.
pub open spec fn fed<S>(
    line: Seq<char>,
    state: S,
    byte: u8,
    capacity: nat,
    at_end: spec_fn(S, Seq<char>) -> S,
) -> (Seq<char>, S) {
    if byte == NEWLINE {
        (Seq::empty(), at_end(state, line))
    } else {
        (line_after(line, byte, capacity), state)
    }
}

/// The line and the receiver's state after `bytes`.
pub open spec fn fed_all<S>(
    line: Seq<char>,
    state: S,
    bytes: Seq<u8>,
    capacity: nat,
    at_end: spec_fn(S, Seq<char>) -> S,
) -> (Seq<char>, S)
    decreases bytes.len(),
{
    if bytes.len() == 0 {
        (line, state)
    } else {
        let (before, s) = fed_all(line, state, bytes.drop_last(), capacity, at_end);
        fed(before, s, bytes.last(), capacity, at_end)
    }
}

/// The line that has come in so far, in a buffer of `N` bytes.
pub struct LineBuffer<const N: usize> {
    line: heapless::String<N>,
}

impl<const N: usize> View for LineBuffer<N> {
    type V = Seq<char>;

    closed spec fn view(&self) -> Seq<char> {
        text(self.line)
    }
}

impl<const N: usize> LineBuffer<N> {
    /// The line fits its buffer.
    pub open spec fn wf(self) -> bool {
        byte_len(self@) <= N
    }

    /// An empty line.
    pub fn new() -> (buffer: LineBuffer<N>)
        ensures
            buffer@ == Seq::<char>::empty(),
            buffer.wf(),
    {
        LineBuffer { line: heapless::String::new() }
    }

    /// Takes in a byte. Says whether it ends the line, which then stays as it is
    /// until it is cleared.
    pub fn accept(&mut self, byte: u8) -> (ended: bool)
        ensures
            ended == (byte == NEWLINE),
            ended ==> final(self)@ == old(self)@,
            !ended ==> final(self)@ == line_after(old(self)@, byte, N as nat),
            old(self).wf() ==> final(self).wf(),
    {
        if byte == NEWLINE {
            return true;
        }
        if byte != RETURN {
            let _ = self.line.push(byte as char);
        }
        false
    }

    /// The characters of the line.
    pub fn as_str(&self) -> (line: &str)
        ensures
            line@ == self@,
    {
        self.line.as_str()
    }

    /// Empties the line.
    pub fn clear(&mut self)
        ensures
            final(self)@ == Seq::<char>::empty(),
            final(self).wf(),
    {
        self.line.clear();
    }
}

/// The characters of `sent` that are no carriage returns.
pub open spec fn without_returns(sent: Seq<char>) -> Seq<char> {
    sent.filter(|c: char| c != '\r')
}

/// The characters of `sent` that `room` bytes hold, one each: all of them, or
/// those that come first.
pub open spec fn cut(sent: Seq<char>, room: nat) -> Seq<char> {
    if sent.len() <= room {
        sent
    } else {
        sent.take(room as int)
    }
}

/// Text that has no carriage returns in it is all that is left without them.
proof fn lemma_no_returns(sent: Seq<char>)
    requires
        !sent.contains('\r'),
    ensures
        without_returns(sent) == sent,
    decreases sent.len(),
{
    reveal(Seq::filter);
    if sent.len() > 0 {
        let head = sent.drop_last();
        assert forall|i: int| 0 <= i < head.len() implies #[trigger] head[i] != '\r' by {
            assert(sent.contains(sent[i]));
        }
        lemma_no_returns(head);
        assert(sent.contains(sent.last()));
        assert(head.push(sent.last()) =~= sent);
    }
}

/// ASCII text is still that without its carriage returns.
proof fn lemma_returns_ascii(sent: Seq<char>)
    requires
        is_ascii_chars(sent),
    ensures
        is_ascii_chars(without_returns(sent)),
    decreases sent.len(),
{
    reveal(Seq::filter);
    if sent.len() > 0 {
        let head = sent.drop_last();
        assert forall|i: int| 0 <= i < head.len() implies '\0' <= #[trigger] head[i]
            <= '\u{7f}' by {
            assert(head[i] == sent[i]);
        }
        lemma_returns_ascii(head);
        let kept = without_returns(sent);
        assert forall|i: int| 0 <= i < kept.len() implies '\0' <= #[trigger] kept[i]
            <= '\u{7f}' by {
            if i < without_returns(head).len() {
                assert(kept[i] == without_returns(head)[i]);
            } else {
                assert(kept[i] == sent[sent.len() - 1]);
            }
        }
    }
}

/// Of ASCII text that has no line end in it, what fits comes in without its
/// carriage returns, and the rest is left out.
proof fn lemma_within_line<S>(
    line: Seq<char>,
    state: S,
    sent: Seq<char>,
    capacity: nat,
    at_end: spec_fn(S, Seq<char>) -> S,
)
    requires
        is_ascii_chars(line),
        is_ascii_chars(sent),
        !sent.contains('\n'),
        line.len() <= capacity,
    ensures
        fed_all(line, state, encode_utf8(sent), capacity, at_end) == (
            line + cut(without_returns(sent), (capacity - line.len()) as nat),
            state,
        ),
    decreases sent.len(),
{
    let bytes = encode_utf8(sent);
    let room = (capacity - line.len()) as nat;
    reveal(Seq::filter);
    is_ascii_chars_encode_utf8(sent);
    if sent.len() == 0 {
        assert(line + cut(without_returns(sent), room) =~= line);
    } else {
        let head = sent.drop_last();
        let c = sent.last();
        assert(head.push(c) =~= sent);
        assert forall|i: int| 0 <= i < head.len() implies '\0' <= #[trigger] head[i]
            <= '\u{7f}' by {
            assert(head[i] == sent[i]);
        }
        assert forall|i: int| 0 <= i < head.len() implies #[trigger] head[i] != '\n' by {
            assert(sent.contains(sent[i]));
        }
        lemma_last_byte(head, c);
        assert(bytes.drop_last() =~= encode_utf8(head));
        lemma_within_line(line, state, head, capacity, at_end);
        assert(sent.contains(c));
        assert(bytes.last() as char == c);
        if c != '\r' {
            let kept = without_returns(head);
            let before = line + cut(kept, room);
            let longer = before.push(c);
            lemma_returns_ascii(head);
            assert forall|i: int| 0 <= i < longer.len() implies '\0' <= #[trigger] longer[i]
                <= '\u{7f}' by {
                assert(longer[i] == if i < line.len() {
                    line[i]
                } else if i < before.len() {
                    kept[i - line.len()]
                } else {
                    c
                });
            }
            is_ascii_chars_encode_utf8(longer);
            if kept.len() < room {
                assert(longer =~= line + kept.push(c));
            } else {
                assert(cut(kept, room) =~= cut(kept.push(c), room));
            }
        }
    }
}

/// One more ASCII character is one more byte.
proof fn lemma_last_byte(head: Seq<char>, c: char)
    requires
        is_ascii_chars(head),
        c <= '\u{7f}',
    ensures
        encode_utf8(head.push(c)) == encode_utf8(head).push(c as u8),
{
    let whole = head.push(c);
    assert forall|i: int| 0 <= i < whole.len() implies '\0' <= #[trigger] whole[i] <= '\u{7f}' by {
        if i < head.len() {
            assert(whole[i] == head[i]);
        }
    }
    is_ascii_chars_encode_utf8(head);
    is_ascii_chars_encode_utf8(whole);
    assert forall|i: int| 0 <= i < whole.len() implies #[trigger] encode_utf8(whole)[i]
        == encode_utf8(head).push(c as u8)[i] by {
        assert(whole[i] as u8 == encode_utf8(whole)[i]);
        if i < head.len() {
            assert(head[i] as u8 == encode_utf8(head)[i]);
        }
    }
    assert(encode_utf8(whole) =~= encode_utf8(head).push(c as u8));
}

/// Bytes that come in two runs have the same effect as in one.
pub proof fn law_fed_in_runs<S>(
    line: Seq<char>,
    state: S,
    a: Seq<u8>,
    b: Seq<u8>,
    capacity: nat,
    at_end: spec_fn(S, Seq<char>) -> S,
)
    ensures
        fed_all(line, state, a + b, capacity, at_end) == ({
            let (between, s) = fed_all(line, state, a, capacity, at_end);
            fed_all(between, s, b, capacity, at_end)
        }),
    decreases b.len(),
{
    if b.len() == 0 {
        assert(a + b =~= a);
    } else {
        assert((a + b).drop_last() =~= a + b.drop_last());
        law_fed_in_runs(line, state, a, b.drop_last(), capacity, at_end);
    }
}

/// A line ends at its line end: whatever bytes came before, and whether or not they
/// fitted, what follows comes in as after an empty line.
pub proof fn law_lines_apart<S>(
    line: Seq<char>,
    state: S,
    bytes: Seq<u8>,
    rest: Seq<u8>,
    capacity: nat,
    at_end: spec_fn(S, Seq<char>) -> S,
)
    ensures
        fed_all(line, state, bytes.push(NEWLINE) + rest, capacity, at_end) == ({
            let (ended, s) = fed_all(line, state, bytes, capacity, at_end);
            fed_all(Seq::empty(), at_end(s, ended), rest, capacity, at_end)
        }),
{
    assert(bytes.push(NEWLINE).drop_last() =~= bytes);
    law_fed_in_runs(line, state, bytes.push(NEWLINE), rest, capacity, at_end);
}

/// No bytes make a line longer than its capacity.
pub proof fn law_line_fits<S>(
    line: Seq<char>,
    state: S,
    bytes: Seq<u8>,
    capacity: nat,
    at_end: spec_fn(S, Seq<char>) -> S,
)
    requires
        byte_len(line) <= capacity,
    ensures
        byte_len(fed_all(line, state, bytes, capacity, at_end).0) <= capacity,
    decreases bytes.len(),
{
    if bytes.len() > 0 {
        law_line_fits(line, state, bytes.drop_last(), capacity, at_end);
    }
}

/// Nothing reaches the receiver before a line end.
pub proof fn law_waits_for_line_end<S>(
    line: Seq<char>,
    state: S,
    bytes: Seq<u8>,
    capacity: nat,
    at_end: spec_fn(S, Seq<char>) -> S,
)
    requires
        !bytes.contains(NEWLINE),
    ensures
        fed_all(line, state, bytes, capacity, at_end).1 == state,
    decreases bytes.len(),
{
    if bytes.len() > 0 {
        let head = bytes.drop_last();
        assert forall|i: int| 0 <= i < head.len() implies #[trigger] head[i] != NEWLINE by {
            assert(bytes.contains(bytes[i]));
        }
        law_waits_for_line_end(line, state, head, capacity, at_end);
        assert(bytes.contains(bytes.last()));
    }
}

/// A line of ASCII text of any length, sent with a line end after it, reaches the
/// receiver without its carriage returns, cut at the capacity. What was cut off
/// does not reach the next line: the bytes that follow come in as after an empty
/// line.
pub proof fn law_line_cut<S>(
    state: S,
    sent: Seq<char>,
    rest: Seq<u8>,
    capacity: nat,
    at_end: spec_fn(S, Seq<char>) -> S,
)
    requires
        is_ascii_chars(sent),
        !sent.contains('\n'),
    ensures
        fed_all(Seq::empty(), state, encode_utf8(sent.push('\n')) + rest, capacity, at_end)
            == fed_all(
            Seq::empty(),
            at_end(state, cut(without_returns(sent), capacity)),
            rest,
            capacity,
            at_end,
        ),
{
    let line = cut(without_returns(sent), capacity);
    lemma_last_byte(sent, '\n');
    lemma_within_line(Seq::empty(), state, sent, capacity, at_end);
    assert(Seq::<char>::empty() + line =~= line);
    law_lines_apart(Seq::empty(), state, encode_utf8(sent), rest, capacity, at_end);
}

/// A line of ASCII text that fits the buffer, sent with a line end after it,
/// reaches the receiver as it was sent, and leaves the buffer empty for the next.
pub proof fn law_line_arrives<S>(
    state: S,
    sent: Seq<char>,
    capacity: nat,
    at_end: spec_fn(S, Seq<char>) -> S,
)
    requires
        is_ascii_chars(sent),
        !sent.contains('\n'),
        !sent.contains('\r'),
        sent.len() <= capacity,
    ensures
        fed_all(Seq::empty(), state, encode_utf8(sent.push('\n')), capacity, at_end) == (
            Seq::<char>::empty(),
            at_end(state, sent),
        ),
{
    let bytes = encode_utf8(sent.push('\n'));
    lemma_no_returns(sent);
    law_line_cut(state, sent, Seq::empty(), capacity, at_end);
    assert(bytes + Seq::<u8>::empty() =~= bytes);
}

/// A carriage return changes nothing, wherever it comes.
pub proof fn law_return_ignored<S>(
    line: Seq<char>,
    state: S,
    capacity: nat,
    at_end: spec_fn(S, Seq<char>) -> S,
)
    ensures
        fed(line, state, RETURN, capacity, at_end) == (line, state),
{
}

/// What a byte does: byte 10 ends the line, which goes to the receiver; byte 13 does
/// nothing; any other adds the character with its code to the line, where the line then
/// takes no more bytes of UTF-8 than the capacity, and else does nothing.
pub proof fn law_byte_taken<S>(
    line: Seq<char>,
    state: S,
    byte: u8,
    capacity: nat,
    at_end: spec_fn(S, Seq<char>) -> S,
)
    ensures
        ({
            let (after, s) = fed(line, state, byte, capacity, at_end);
            let fits = encode_utf8(line.push(byte as char)).len() <= capacity;
            &&& byte == 10 ==> after.len() == 0 && s == at_end(state, line)
            &&& byte != 10 ==> s == state
            &&& byte == 13 ==> after == line
            &&& byte != 10 && byte != 13 && fits ==> after.len() == line.len() + 1
                && after.drop_last() == line && after.last() as u32 == byte
            &&& byte != 10 && byte != 13 && !fits ==> after == line
        }),
        fed_all(line, state, seq![byte], capacity, at_end) == fed(
            line,
            state,
            byte,
            capacity,
            at_end,
        ),
        fed_all(line, state, Seq::empty(), capacity, at_end) == (line, state),
{
    assert(seq![byte].drop_last() =~= Seq::<u8>::empty());
    assert(fed_all(line, state, Seq::<u8>::empty(), capacity, at_end) == (line, state));
    assert(line.push(byte as char).drop_last() =~= line);
}

} // verus!
