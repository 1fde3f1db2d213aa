//! Taking strings apart: trimming, prefixes, separators and substrings.

use vstd::prelude::*;

verus! {

/// The characters with Unicode's White_Space property.
pub open spec fn is_white_space(c: char) -> bool {
    let code = c as u32;
    ||| 0x9 <= code <= 0xd
    ||| code == 0x20
    ||| code == 0x85
    ||| code == 0xa0
    ||| code == 0x1680
    ||| 0x2000 <= code <= 0x200a
    ||| code == 0x2028
    ||| code == 0x2029
    ||| code == 0x202f
    ||| code == 0x205f
    ||| code == 0x3000
}

/// `s` without the white space at its start.
pub open spec fn trimmed_start(s: Seq<char>) -> Seq<char>
    decreases s.len(),
{
    if s.len() > 0 && is_white_space(s.first()) {
        trimmed_start(s.drop_first())
    } else {
        s
    }
}

/// `s` without the white space at its end.
pub open spec fn trimmed_end(s: Seq<char>) -> Seq<char>
    decreases s.len(),
{
    if s.len() > 0 && is_white_space(s.last()) {
        trimmed_end(s.drop_last())
    } else {
        s
    }
}

/// `s` without the white space at both of its ends.
pub open spec fn trimmed(s: Seq<char>) -> Seq<char> {
    trimmed_end(trimmed_start(s))
}

/// The number of characters of `s` before the first that is in `stops`: the
/// length of `s` where none is.
pub open spec fn until(s: Seq<char>, stops: Set<char>) -> nat
    decreases s.len(),
{
    if s.len() == 0 || stops.contains(s.first()) {
        0
    } else {
        1 + until(s.drop_first(), stops)
    }
}

/// `pattern` stands in `s` from position `at` on.
pub open spec fn occurs_at(s: Seq<char>, pattern: Seq<char>, at: int) -> bool {
    &&& 0 <= at
    &&& at + pattern.len() <= s.len()
    &&& s.subrange(at, at + pattern.len()) == pattern
}

/// The first position at or after `from` at which `pattern` stands in `s`.
pub open spec fn find_from(s: Seq<char>, pattern: Seq<char>, from: nat) -> Option<nat>
    decreases s.len() + 1 - from,
{
    if from + pattern.len() > s.len() {
        None
    } else if occurs_at(s, pattern, from as int) {
        Some(from)
    } else {
        find_from(s, pattern, from + 1)
    }
}

/// The parts of `s` between the occurrences of `separator`.
pub open spec fn split(s: Seq<char>, separator: char) -> Seq<Seq<char>>
    decreases s.len(),
{
    let n = until(s, set![separator]);
    if n < s.len() {
        seq![s.take(n as int)] + split(s.skip(n as int + 1), separator)
    } else {
        seq![s]
    }
}

/// The parts of `s` before the first `separator`, between the first and the
/// second, and after the second. Where there are fewer than two separators,
/// the last part is what follows the last of them, and the others are empty.
pub open spec fn three_parts(s: Seq<char>, separator: char) -> Seq<Seq<char>> {
    let n = until(s, set![separator]);
    let rest = s.skip(n as int + 1);
    let m = until(rest, set![separator]);
    if n == s.len() {
        seq![s, seq![], seq![]]
    } else if m == rest.len() {
        seq![s.take(n as int), rest, seq![]]
    } else {
        seq![s.take(n as int), rest.take(m as int), rest.skip(m as int + 1)]
    }
}

/// `until` is the one position that has no stop before it, and at which `s`
/// ends or has a stop.
pub proof fn lemma_until(s: Seq<char>, stops: Set<char>, n: int)
    requires
        0 <= n <= s.len(),
        forall|i: int| 0 <= i < n ==> !stops.contains(#[trigger] s[i]),
        n == s.len() || stops.contains(s[n]),
    ensures
        until(s, stops) == n,
    decreases s.len(),
{
    if n > 0 {
        let rest = s.drop_first();
        assert forall|i: int| 0 <= i < n - 1 implies !stops.contains(#[trigger] rest[i]) by {
            assert(rest[i] == s[i + 1]);
        }
        lemma_until(rest, stops, n - 1);
    }
}

/// `find_from` is the first position at which the pattern occurs.
pub proof fn lemma_find_from(s: Seq<char>, pattern: Seq<char>, from: nat, at: nat)
    requires
        from <= at,
        occurs_at(s, pattern, at as int),
        forall|i: int| from <= i < at ==> !#[trigger] occurs_at(s, pattern, i),
    ensures
        find_from(s, pattern, from) == Some(at),
    decreases at - from,
{
    if from < at {
        assert(!occurs_at(s, pattern, from as int));
        lemma_find_from(s, pattern, from + 1, at);
    }
}

/// A part that has no separator in it is the first part of a split.
pub proof fn lemma_split_part(part: Seq<char>, separator: char, rest: Seq<char>)
    requires
        !part.contains(separator),
    ensures
        split(part, separator) == seq![part],
        split(part.push(separator) + rest, separator) == seq![part] + split(rest, separator),
{
    let s = part.push(separator) + rest;
    let stops = set![separator];
    assert forall|i: int| 0 <= i < part.len() implies !stops.contains(#[trigger] part[i]) by {
        assert(part.contains(part[i]));
    }
    lemma_until(part, stops, part.len() as int);
    assert forall|i: int| 0 <= i < part.len() implies !stops.contains(#[trigger] s[i]) by {
        assert(part.contains(part[i]));
        assert(s[i] == part[i]);
    }
    lemma_until(s, stops, part.len() as int);
    assert(s.take(part.len() as int) =~= part);
    assert(s.skip(part.len() as int + 1) =~= rest);
}

/// `parts` with separators between them.
pub open spec fn joined(parts: Seq<Seq<char>>, separator: char) -> Seq<char>
    decreases parts.len(),
{
    if parts.len() == 0 {
        Seq::empty()
    } else if parts.len() == 1 {
        parts[0]
    } else {
        parts[0].push(separator) + joined(parts.drop_first(), separator)
    }
}

/// Parts that have no separator in them are what a split of them, joined, gives
/// back.
pub proof fn law_split_joined(parts: Seq<Seq<char>>, separator: char)
    requires
        parts.len() > 0,
        forall|i: int| 0 <= i < parts.len() ==> !(#[trigger] parts[i]).contains(separator),
    ensures
        split(joined(parts, separator), separator) == parts,
    decreases parts.len(),
{
    let rest = parts.drop_first();
    assert(!parts[0].contains(separator));
    lemma_split_part(parts[0], separator, joined(rest, separator));
    if parts.len() == 1 {
        assert(parts =~= seq![parts[0]]);
    } else {
        assert forall|i: int| 0 <= i < rest.len() implies !(#[trigger] rest[i]).contains(
            separator,
        ) by {
            assert(rest[i] == parts[i + 1]);
        }
        law_split_joined(rest, separator);
        assert(parts =~= seq![parts[0]] + rest);
    }
}

/// Text that neither starts nor ends with white space is its own trimming.
pub proof fn lemma_trimmed_same(s: Seq<char>)
    requires
        s.len() > 0 ==> !is_white_space(s.first()) && !is_white_space(s.last()),
    ensures
        trimmed(s) == s,
{
}

/// Whether `c` has Unicode's White_Space property.
pub fn white_space(c: char) -> (result: bool)
    ensures
        result == is_white_space(c),
{
    let code: u32 = c as u32;
    (0x9 <= code && code <= 0xd) || code == 0x20 || code == 0x85 || code == 0xa0 || code == 0x1680
        || (0x2000 <= code && code <= 0x200a) || code == 0x2028 || code == 0x2029 || code == 0x202f
        || code == 0x205f || code == 0x3000
}

/// `s` without the white space at both of its ends.
pub fn trim(s: &str) -> (result: &str)
    ensures
        result@ == trimmed(s@),
{
    let len: usize = s.unicode_len();
    let mut start: usize = 0;
    assert(s@.skip(0) =~= s@);
    while start < len && white_space(s.get_char(start))
        invariant
            start <= len,
            len == s@.len(),
            trimmed_start(s@) == trimmed_start(s@.skip(start as int)),
        decreases len - start,
    {
        assert(s@.skip(start as int).drop_first() =~= s@.skip(start + 1));
        start += 1;
    }
    let ghost tail = s@.skip(start as int);
    assert(trimmed_start(s@) == tail);
    let mut end: usize = len;
    assert(s@.subrange(start as int, end as int) =~= tail);
    while start < end && white_space(s.get_char(end - 1))
        invariant
            start <= end <= len,
            len == s@.len(),
            trimmed_end(tail) == trimmed_end(s@.subrange(start as int, end as int)),
        decreases end - start,
    {
        let ghost here = s@.subrange(start as int, end as int);
        assert(here.last() == s@[end - 1]);
        assert(here.drop_last() =~= s@.subrange(start as int, end - 1));
        end -= 1;
    }
    proof {
        let here = s@.subrange(start as int, end as int);
        if here.len() > 0 {
            assert(here.last() == s@[end - 1]);
        }
    }
    s.substring_char(start, end)
}

/// Whether `s` starts with `prefix`.
pub fn starts_with(s: &str, prefix: &str) -> (result: bool)
    ensures
        result == prefix@.is_prefix_of(s@),
{
    let len: usize = prefix.unicode_len();
    if s.unicode_len() < len {
        return false;
    }
    let mut i: usize = 0;
    while i < len
        invariant
            i <= len,
            len == prefix@.len(),
            len <= s@.len(),
            forall|j: int| 0 <= j < i ==> prefix@[j] == s@[j],
        decreases len - i,
    {
        if s.get_char(i) != prefix.get_char(i) {
            assert(s@.subrange(0, len as int)[i as int] != prefix@[i as int]);
            return false;
        }
        i += 1;
    }
    assert(prefix@ =~= s@.subrange(0, len as int));
    true
}

/// What follows `prefix` in `s`, where `s` starts with it.
pub fn strip_prefix<'a>(s: &'a str, prefix: &str) -> (result: Option<&'a str>)
    ensures
        result is Some <==> prefix@.is_prefix_of(s@),
        result matches Some(rest) ==> rest@ == s@.skip(prefix@.len() as int),
{
    if starts_with(s, prefix) {
        Some(s.substring_char(prefix.unicode_len(), s.unicode_len()))
    } else {
        None
    }
}

/// Whether `a` and `b` have the same characters.
pub fn same_text(a: &str, b: &str) -> (result: bool)
    ensures
        result == (a@ == b@),
{
    let result = a.unicode_len() == b.unicode_len() && starts_with(a, b);
    assert(a@.len() == b@.len() ==> a@.subrange(0, b@.len() as int) =~= a@);
    result
}

/// The number of characters of `s` before the first `stop`.
pub fn position(s: &str, stop: char) -> (result: usize)
    ensures
        result == until(s@, set![stop]),
        result <= s@.len(),
{
    let len: usize = s.unicode_len();
    let mut i: usize = 0;
    while i < len && s.get_char(i) != stop
        invariant
            i <= len,
            len == s@.len(),
            forall|j: int| 0 <= j < i ==> s@[j] != stop,
        decreases len - i,
    {
        i += 1;
    }
    proof {
        lemma_until(s@, set![stop], i as int);
    }
    i
}

/// The first position at which `pattern` stands in `s`.
pub fn find(s: &str, pattern: &str) -> (result: Option<usize>)
    ensures
        result is Some <==> find_from(s@, pattern@, 0) is Some,
        result matches Some(at) ==> find_from(s@, pattern@, 0) == Some(at as nat) && at
            + pattern@.len() <= s@.len(),
{
    let len: usize = s.unicode_len();
    let width: usize = pattern.unicode_len();
    if len < width {
        return None;
    }
    let last: usize = len - width;
    let mut at: usize = 0;
    loop
        invariant
            len == s@.len(),
            width == pattern@.len(),
            last + width == len,
            at <= last,
            find_from(s@, pattern@, 0) == find_from(s@, pattern@, at as nat),
        decreases last - at,
    {
        let rest = s.substring_char(at, len);
        assert(rest@.subrange(0, width as int) =~= s@.subrange(at as int, at + width));
        if starts_with(rest, pattern) {
            return Some(at);
        }
        if at == last {
            assert(find_from(s@, pattern@, at as nat + 1) is None);
            return None;
        }
        at += 1;
    }
}

/// The parts of `s` before the first `sep`, between the first and the second,
/// and after the second.
pub fn split3<'a>(s: &'a str, sep: char) -> (parts: [&'a str; 3])
    requires
        sep <= '\u{7f}' || !s@.contains(sep),
    ensures
        parts[0]@ == three_parts(s@, sep)[0],
        parts[1]@ == three_parts(s@, sep)[1],
        parts[2]@ == three_parts(s@, sep)[2],
{
    let len: usize = s.unicode_len();
    let empty = s.substring_char(0, 0);
    assert(empty@ =~= Seq::<char>::empty());
    let n: usize = position(s, sep);
    if n == len {
        return [s, empty, empty];
    }
    let first = s.substring_char(0, n);
    let rest = s.substring_char(n + 1, len);
    assert(first@ =~= s@.take(n as int));
    assert(rest@ =~= s@.skip(n + 1));
    let m: usize = position(rest, sep);
    let rest_len: usize = len - n - 1;
    if m == rest_len {
        return [first, rest, empty];
    }
    let second = rest.substring_char(0, m);
    let third = rest.substring_char(m + 1, rest_len);
    assert(second@ =~= rest@.take(m as int));
    assert(third@ =~= rest@.skip(m + 1));
    [first, second, third]
}

/// `s` is white space, or empty.
pub open spec fn blank(s: Seq<char>) -> bool {
    forall|i: int| 0 <= i < s.len() ==> is_white_space(#[trigger] s[i])
}

/// White space at the start makes no difference to what is left.
proof fn lemma_trimmed_start(white: Seq<char>, s: Seq<char>)
    requires
        blank(white),
    ensures
        trimmed_start(white + s) == trimmed_start(s),
    decreases white.len(),
{
    if white.len() == 0 {
        assert(white + s =~= s);
    } else {
        let rest = white.drop_first();
        assert forall|i: int| 0 <= i < rest.len() implies is_white_space(#[trigger] rest[i]) by {
            assert(rest[i] == white[i + 1]);
        }
        assert((white + s).drop_first() =~= rest + s);
        assert(is_white_space(white[0]));
        lemma_trimmed_start(rest, s);
    }
}

/// Nor does white space at the end.
proof fn lemma_trimmed_end(s: Seq<char>, white: Seq<char>)
    requires
        blank(white),
    ensures
        trimmed_end(s + white) == trimmed_end(s),
    decreases white.len(),
{
    if white.len() == 0 {
        assert(s + white =~= s);
    } else {
        let rest = white.drop_last();
        assert forall|i: int| 0 <= i < rest.len() implies is_white_space(#[trigger] rest[i]) by {
            assert(rest[i] == white[i]);
        }
        assert((s + white).drop_last() =~= s + rest);
        assert(is_white_space(white[white.len() - 1]));
        lemma_trimmed_end(s, rest);
    }
}

/// Trimming takes the white space around a text, all of it and nothing else: what is
/// left is the text itself, where it neither starts nor ends with white space.
pub proof fn law_trimmed(before: Seq<char>, s: Seq<char>, after: Seq<char>)
    requires
        blank(before),
        blank(after),
        s.len() > 0 ==> !is_white_space(s.first()) && !is_white_space(s.last()),
    ensures
        trimmed(before + s + after) == s,
{
    assert(before + s + after =~= before + (s + after));
    lemma_trimmed_start(before, s + after);
    if s.len() == 0 {
        assert(s + after =~= after);
        assert(after =~= after + Seq::<char>::empty());
        lemma_trimmed_start(after, Seq::empty());
        assert(trimmed_start(Seq::<char>::empty()) =~= Seq::<char>::empty());
        assert(s =~= Seq::<char>::empty());
    } else {
        assert((s + after).first() == s.first());
        lemma_trimmed_end(s, after);
    }
}

/// The first position at which a pattern stands is one at which it does, character by
/// character, and it stands at none before. Where there is no such position it stands
/// at none at all.
pub proof fn law_found(s: Seq<char>, pattern: Seq<char>)
    ensures
        match find_from(s, pattern, 0) {
            Some(at) => {
                &&& at + pattern.len() <= s.len()
                &&& forall|j: int| 0 <= j < pattern.len() ==> s[at + j] == #[trigger] pattern[j]
                &&& forall|i: int|
                    0 <= i < at ==> #[trigger] s.subrange(i, i + pattern.len()) != pattern
            },
            None => forall|i: int|
                0 <= i <= s.len() - pattern.len() ==> #[trigger] s.subrange(i, i + pattern.len())
                    != pattern,
        },
{
    lemma_found_from(s, pattern, 0);
    if let Some(at) = find_from(s, pattern, 0) {
        assert forall|j: int| 0 <= j < pattern.len() implies s[at + j] == #[trigger] pattern[j] by {
            assert(s.subrange(at as int, at as int + pattern.len())[j] == s[at + j]);
        }
    }
}

/// The same from a position on.
proof fn lemma_found_from(s: Seq<char>, pattern: Seq<char>, from: nat)
    ensures
        match find_from(s, pattern, from) {
            Some(at) => {
                &&& from <= at && at + pattern.len() <= s.len()
                &&& s.subrange(at as int, at as int + pattern.len()) == pattern
                &&& forall|i: int|
                    from <= i < at ==> #[trigger] s.subrange(i, i + pattern.len()) != pattern
            },
            None => forall|i: int|
                from <= i <= s.len() - pattern.len() ==> #[trigger] s.subrange(
                    i,
                    i + pattern.len(),
                ) != pattern,
        },
    decreases s.len() + 1 - from,
{
    if from + pattern.len() <= s.len() && !occurs_at(s, pattern, from as int) {
        lemma_found_from(s, pattern, from + 1);
    }
}

/// The number of characters before the first stop: there are as many that are none,
/// and then there is one, or the text ends.
pub proof fn law_until(s: Seq<char>, stops: Set<char>)
    ensures
        until(s, stops) <= s.len(),
        forall|i: int| 0 <= i < until(s, stops) ==> !stops.contains(#[trigger] s[i]),
        until(s, stops) < s.len() ==> stops.contains(s[until(s, stops) as int]),
    decreases s.len(),
{
    if s.len() > 0 && !stops.contains(s.first()) {
        let rest = s.drop_first();
        law_until(rest, stops);
        assert forall|i: int| 0 <= i < until(s, stops) implies !stops.contains(#[trigger] s[i]) by {
            if i > 0 {
                assert(s[i] == rest[i - 1]);
            }
        }
    }
}

/// Three texts with separators between them come apart as they were, where the first
/// two have no separator in them. With fewer of them the others are empty.
pub proof fn law_three_parts(a: Seq<char>, b: Seq<char>, c: Seq<char>, separator: char)
    requires
        !a.contains(separator),
        !b.contains(separator),
    ensures
        three_parts(a.push(separator) + b.push(separator) + c, separator) == seq![a, b, c],
        three_parts(a.push(separator) + b, separator) == seq![a, b, Seq::empty()],
        three_parts(a, separator) == seq![a, Seq::empty(), Seq::empty()],
{
    lemma_first_part(a, separator, b.push(separator) + c);
    lemma_first_part(b, separator, c);
    lemma_first_part(a, separator, b);
    assert(a.push(separator) + b.push(separator) + c =~= a.push(separator) + (b.push(separator)
        + c));
}

/// Text up to its first separator.
proof fn lemma_first_part(part: Seq<char>, separator: char, rest: Seq<char>)
    requires
        !part.contains(separator),
    ensures
        until(part, set![separator]) == part.len(),
        until(part.push(separator) + rest, set![separator]) == part.len(),
        (part.push(separator) + rest).take(part.len() as int) == part,
        (part.push(separator) + rest).skip(part.len() as int + 1) == rest,
{
    let s = part.push(separator) + rest;
    assert forall|i: int| 0 <= i < part.len() implies !set![separator].contains(
        #[trigger] part[i],
    ) by {
        assert(part.contains(part[i]));
    }
    lemma_until(part, set![separator], part.len() as int);
    assert forall|i: int| 0 <= i < part.len() implies !set![separator].contains(#[trigger] s[i]) by {
        assert(s[i] == part[i]);
        assert(part.contains(part[i]));
    }
    lemma_until(s, set![separator], part.len() as int);
    assert(s.take(part.len() as int) =~= part);
    assert(s.skip(part.len() as int + 1) =~= rest);
}

} // verus!
