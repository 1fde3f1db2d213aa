//! Strings of bounded size, as the two boards exchange and display them.
//!
//! The strings themselves are `heapless::String`s: they live in a fixed array
//! of bytes, and an append that does not fit leaves them as they were.

use vstd::prelude::*;
use vstd::string::to_string_from_display_ensures;
use vstd::utf8::{encode_utf8, is_ascii_chars, is_ascii_chars_encode_utf8};

verus! {

/// `heapless::String`, a string of at most `N` bytes of UTF-8. Nothing is
/// claimed of it here but that the type exists.
#[verifier::external_type_specification]
#[verifier::external_body]
pub struct ExBoundedString<const N: usize>(heapless::String<N>);

/// The characters that `s` holds: those that its `to_string` writes out.
pub open spec fn text<const N: usize>(s: heapless::String<N>) -> Seq<char> {
    (choose|shown: String| to_string_from_display_ensures(&s, shown))@
}

/// The number of bytes that `t` takes in UTF-8.
pub open spec fn byte_len(t: Seq<char>) -> nat {
    encode_utf8(t).len()
}

/// `heapless::String::new`: a new string is empty.
pub assume_specification<const N: usize>[ heapless::String::<N>::new ]() -> (s: heapless::String<N>)
    ensures
        text(s) == Seq::<char>::empty(),
;

/// `heapless::String::as_str`: the slice has the characters that the string holds.
pub assume_specification<const N: usize>[ heapless::String::<N>::as_str ](
    s: &heapless::String<N>,
) -> (slice: &str)
    ensures
        slice@ == text(*s),
;

/// `heapless::String::push_str`: appends the whole of `string` where the result
/// takes at most `N` bytes. Otherwise it returns `Err` and changes nothing.
pub assume_specification<const N: usize>[ heapless::String::<N>::push_str ](
    s: &mut heapless::String<N>,
    string: &str,
) -> (result: Result<(), ()>)
    ensures
        result is Ok <==> byte_len(text(*old(s)) + string@) <= N,
        result is Ok ==> text(*final(s)) == text(*old(s)) + string@,
        result is Err ==> text(*final(s)) == text(*old(s)),
;

/// `heapless::String::push`: appends `c` where the result takes at most `N`
/// bytes. Otherwise it returns `Err` and changes nothing.
pub assume_specification<const N: usize>[ heapless::String::<N>::push ](
    s: &mut heapless::String<N>,
    c: char,
) -> (result: Result<(), ()>)
    ensures
        result is Ok <==> byte_len(text(*old(s)).push(c)) <= N,
        result is Ok ==> text(*final(s)) == text(*old(s)).push(c),
        result is Err ==> text(*final(s)) == text(*old(s)),
;

/// `heapless::String::clear`: the string is empty afterwards.
pub assume_specification<const N: usize>[ heapless::String::<N>::clear ](
    s: &mut heapless::String<N>,
)
    ensures
        text(*final(s)) == Seq::<char>::empty(),
;

/// What a string of capacity `capacity` that holds `before` holds once `pieces`
/// were written to it in order: writing ends with the first piece that does not
/// fit, of which nothing is kept.
pub open spec fn written(capacity: nat, before: Seq<char>, pieces: Seq<Seq<char>>) -> Seq<char>
    decreases pieces.len(),
{
    if pieces.len() > 0 && byte_len(before + pieces[0]) <= capacity {
        written(capacity, before + pieces[0], pieces.drop_first())
    } else {
        before
    }
}

/// The characters of each of `pieces`.
pub open spec fn views(pieces: Seq<&str>) -> Seq<Seq<char>> {
    Seq::new(pieces.len(), |i: int| pieces[i]@)
}

/// Writes `pieces` to `out` in order, up to the first that does not fit.
pub(crate) fn write_pieces<const N: usize>(out: &mut heapless::String<N>, pieces: &[&str])
    ensures
        text(*final(out)) == written(N as nat, text(*old(out)), views(pieces@)),
{
    let ghost all = views(pieces@);
    let ghost start = text(*out);
    let mut i: usize = 0;
    assert(all.skip(0) == all);
    while i < pieces.len()
        invariant
            i <= pieces@.len(),
            all == views(pieces@),
            start == text(*old(out)),
            written(N as nat, start, all) == written(N as nat, text(*out), all.skip(i as int)),
        decreases pieces@.len() - i,
    {
        proof {
            assert(all.skip(i as int)[0] == pieces@[i as int]@);
            assert(all.skip(i as int).drop_first() == all.skip(i + 1));
        }
        if out.push_str(pieces[i]).is_err() {
            return;
        }
        i += 1;
    }
}

/// Appends `piece`, which fits, to `out`.
pub(crate) fn append<const N: usize>(out: &mut heapless::String<N>, piece: &str)
    requires
        is_ascii_chars(text(*old(out))),
        is_ascii_chars(piece@),
        text(*old(out)).len() + piece@.len() <= N,
    ensures
        text(*final(out)) == text(*old(out)) + piece@,
        is_ascii_chars(text(*final(out))),
{
    proof {
        lemma_ascii_bytes(text(*out) + piece@);
    }
    let _ = out.push_str(piece);
}

/// Appends `c`, which fits, to `out`.
pub(crate) fn append_char<const N: usize>(out: &mut heapless::String<N>, c: char)
    requires
        is_ascii_chars(text(*old(out))),
        c <= '\u{7f}',
        text(*old(out)).len() + 1 <= N,
    ensures
        text(*final(out)) == text(*old(out)).push(c),
        is_ascii_chars(text(*final(out))),
{
    proof {
        lemma_ascii_bytes(text(*out).push(c));
    }
    let _ = out.push(c);
}

/// An ASCII character takes one byte.
pub proof fn lemma_ascii_bytes(t: Seq<char>)
    requires
        is_ascii_chars(t),
    ensures
        byte_len(t) == t.len(),
{
    is_ascii_chars_encode_utf8(t);
}

/// `t` is made of printable ASCII characters.
pub open spec fn printable(t: Seq<char>) -> bool {
    forall|i: int| 0 <= i < t.len() ==> ' ' <= #[trigger] t[i] <= '~'
}

/// Printable text is ASCII text without line ends.
pub proof fn lemma_printable(t: Seq<char>)
    requires
        printable(t),
    ensures
        is_ascii_chars(t),
        !t.contains('\n'),
        !t.contains('\r'),
{
    assert forall|i: int| 0 <= i < t.len() implies '\0' <= #[trigger] t[i] <= '\u{7f}' by {
        assert(' ' <= t[i] <= '~');
    }
    assert forall|i: int| 0 <= i < t.len() implies #[trigger] t[i] != '\n' && t[i] != '\r' by {
        assert(' ' <= t[i] <= '~');
    }
}

/// Text that is made of printable text is printable.
pub proof fn lemma_printable_concat(a: Seq<char>, b: Seq<char>)
    requires
        printable(a),
        printable(b),
    ensures
        printable(a + b),
{
}

/// Pieces that fit together are all written.
pub proof fn lemma_written_whole(capacity: nat, before: Seq<char>, pieces: Seq<Seq<char>>)
    requires
        is_ascii_chars(before + pieces.flatten()),
        before.len() + pieces.flatten().len() <= capacity,
    ensures
        written(capacity, before, pieces) == before + pieces.flatten(),
    decreases pieces.len(),
{
    reveal(Seq::flatten);
    if pieces.len() > 0 {
        let rest = pieces.drop_first();
        assert(pieces.flatten() == pieces[0] + rest.flatten());
        assert(before + pieces.flatten() =~= (before + pieces[0]) + rest.flatten());
        assert forall|i: int| 0 <= i < (before + pieces[0]).len() implies '\0'
            <= #[trigger] (before + pieces[0])[i] <= '\u{7f}' by {
            assert((before + pieces[0])[i] == (before + pieces.flatten())[i]);
        }
        lemma_ascii_bytes(before + pieces[0]);
        lemma_written_whole(capacity, before + pieces[0], rest);
    } else {
        assert(before + pieces.flatten() =~= before);
    }
}

/// Writing ends with the first piece that does not fit: the first pieces are written
/// whole, as many as `k`, each of them fits behind those before it, and either they are
/// all, or the next would not fit.
pub proof fn law_written(capacity: nat, before: Seq<char>, pieces: Seq<Seq<char>>, k: nat)
    requires
        k <= pieces.len(),
        forall|i: int|
            0 < i <= k ==> byte_len(before + #[trigger] pieces.take(i).flatten()) <= capacity,
        k < pieces.len() ==> byte_len(before + pieces.take(k as int + 1).flatten()) > capacity,
    ensures
        written(capacity, before, pieces) == before + pieces.take(k as int).flatten(),
    decreases k,
{
    reveal(Seq::flatten);
    if k == 0 {
        assert(pieces.take(0).flatten() =~= Seq::<char>::empty());
        assert(before + pieces.take(0).flatten() =~= before);
        if pieces.len() > 0 {
            lemma_first_piece(pieces, 1);
            assert(pieces.drop_first().take(0).flatten() =~= Seq::<char>::empty());
            assert(pieces[0] + pieces.drop_first().take(0).flatten() =~= pieces[0]);
        }
    } else {
        let rest = pieces.drop_first();
        let next = before + pieces[0];
        assert forall|i: int| 0 <= i < pieces.len() implies before + (#[trigger] pieces.take(
            i + 1,
        )).flatten() == next + rest.take(i).flatten() by {
            lemma_first_piece(pieces, i + 1);
            assert(before + (pieces[0] + rest.take(i).flatten()) =~= next + rest.take(i).flatten());
        }
        assert(rest.take(0).flatten() =~= Seq::<char>::empty());
        assert(next + rest.take(0).flatten() =~= next);
        assert(byte_len(before + pieces.take(0int + 1).flatten()) <= capacity);
        assert forall|i: int| 0 < i <= k - 1 implies byte_len(
            next + #[trigger] rest.take(i).flatten(),
        ) <= capacity by {
            assert(byte_len(before + pieces.take(i + 1).flatten()) <= capacity);
        }
        if k < pieces.len() {
            assert(before + pieces.take(k as int + 1).flatten() == next + rest.take(
                k as int,
            ).flatten());
        }
        law_written(capacity, next, rest, (k - 1) as nat);
        assert(before + pieces.take(k - 1 + 1).flatten() == next + rest.take(k - 1).flatten());
    }
}

/// The first of several pieces.
proof fn lemma_first_piece(pieces: Seq<Seq<char>>, n: int)
    requires
        0 < n <= pieces.len(),
    ensures
        pieces.take(n).flatten() == pieces[0] + pieces.drop_first().take(n - 1).flatten(),
{
    reveal(Seq::flatten);
    assert(pieces.take(n).drop_first() =~= pieces.drop_first().take(n - 1));
}

/// The characters of pieces are those of each of them, in their order.
pub proof fn law_views(pieces: Seq<&str>)
    ensures
        views(pieces).len() == pieces.len(),
        forall|i: int| 0 <= i < pieces.len() ==> #[trigger] views(pieces)[i] == pieces[i]@,
{
}

} // verus!
