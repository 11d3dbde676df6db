//! What holds of the texts that the crate writes.

use crate::text::{
    cut_at, decimal, digit, escaped, trimmed, trimmed_end, trimmed_start, truncated,
    wide_white_space, CharSet,
};
use vstd::prelude::*;
use vstd::utf8::*;

verus! {

/// The decimal notation of a number consists of at least one digit and of
/// nothing else.
pub proof fn decimal_is_digits(n: nat)
    ensures
        decimal(n).len() > 0,
        forall|i: int| 0 <= i < decimal(n).len() ==> '0' <= #[trigger] decimal(n)[i] && decimal(n)[i]
            <= '9',
    decreases n,
{
    if n >= 10 {
        decimal_is_digits(n / 10);
    }
}

/// Two numbers with the same decimal notation are the same.
pub proof fn decimal_is_injective(a: nat, b: nat)
    requires
        decimal(a) == decimal(b),
    ensures
        a == b,
    decreases a,
{
    decimal_is_digits(a / 10);
    decimal_is_digits(b / 10);
    assert(decimal(a).last() == decimal(b).last());
    assert(decimal(a).last() == digit(a % 10));
    assert(decimal(b).last() == digit(b % 10));
    assert(a % 10 == b % 10);
    if a >= 10 && b >= 10 {
        assert(decimal(a).drop_last() =~= decimal(a / 10));
        assert(decimal(b).drop_last() =~= decimal(b / 10));
        decimal_is_injective(a / 10, b / 10);
    } else if a >= 10 {
        assert(decimal(a).len() == 1);
    } else if b >= 10 {
        assert(decimal(b).len() == 1);
    }
}

/// Every double quote in an escaped text stands behind a backslash.
pub proof fn escaped_quotes_are_guarded(s: Seq<char>)
    ensures
        forall|i: int|
            0 <= i < escaped(s).len() && #[trigger] escaped(s)[i] == '"' ==> i > 0 && escaped(s)[i
                - 1] == '\\',
    decreases s.len(),
{
    if s.len() > 0 {
        let head = escaped(s.drop_last());
        escaped_quotes_are_guarded(s.drop_last());
        assert forall|i: int|
            0 <= i < escaped(s).len() && #[trigger] escaped(s)[i] == '"' implies i > 0
            && escaped(s)[i - 1] == '\\' by {
            if i < head.len() {
                assert(escaped(s)[i] == head[i]);
                assert(escaped(s)[i - 1] == head[i - 1]);
            }
        }
    }
}

/// A text without double quotes is escaped to itself.
pub proof fn unquoted_text_is_kept(s: Seq<char>)
    requires
        !s.contains('"'),
    ensures
        escaped(s) == s,
    decreases s.len(),
{
    if s.len() > 0 {
        assert(s.contains(s.last()));
        assert forall|i: int| 0 <= i < s.drop_last().len() implies #[trigger] s.drop_last()[i]
            != '"' by {
            assert(s.contains(s[i]));
        }
        unquoted_text_is_kept(s.drop_last());
        assert(s.drop_last().push(s.last()) =~= s);
    }
}

/// Two texts with the same escaped form are the same.
pub proof fn escaped_is_injective(a: Seq<char>, b: Seq<char>)
    requires
        escaped(a) == escaped(b),
    ensures
        a == b,
    decreases a.len(),
{
    if a.len() == 0 && b.len() == 0 {
        assert(a =~= b);
    } else if a.len() == 0 {
        assert(escaped(b).len() == 0);
    } else if b.len() == 0 {
        assert(escaped(a).len() == 0);
    } else {
        assert(escaped(a).last() == a.last());
        assert(escaped(b).last() == b.last());
        if a.last() == '"' {
            assert(escaped(a).drop_last().drop_last() =~= escaped(a.drop_last()));
            assert(escaped(b).drop_last().drop_last() =~= escaped(b.drop_last()));
        } else {
            assert(escaped(a).drop_last() =~= escaped(a.drop_last()));
            assert(escaped(b).drop_last() =~= escaped(b.drop_last()));
        }
        escaped_is_injective(a.drop_last(), b.drop_last());
        assert(a =~= a.drop_last().push(a.last()));
        assert(b =~= b.drop_last().push(b.last()));
    }
}

/// The place where a text is cut lies on a character boundary, not beyond the
/// limit, and is the last such place.
pub proof fn cut_is_last_boundary(s: Seq<char>, max_len: nat)
    requires
        max_len < encode_utf8(s).len(),
    ensures
        cut_at(encode_utf8(s), max_len) <= max_len,
        is_char_boundary(encode_utf8(s), cut_at(encode_utf8(s), max_len) as int),
        forall|i: int|
            cut_at(encode_utf8(s), max_len) < i <= max_len ==> !#[trigger] is_char_boundary(
                encode_utf8(s),
                i,
            ),
    decreases max_len,
{
    let bytes = encode_utf8(s);
    encode_utf8_valid_utf8(s);
    is_char_boundary_start_end_of_seq(bytes);
    if max_len > 0 && !is_char_boundary(bytes, max_len as int) {
        cut_is_last_boundary(s, (max_len - 1) as nat);
    }
}

/// A text that is cut keeps a prefix of itself, of at most `max_len` bytes, and
/// an ellipsis behind it.
pub proof fn truncation_keeps_a_prefix(s: Seq<char>, max_len: nat)
    requires
        max_len < encode_utf8(s).len(),
    ensures
        exists|n: int|
            0 <= n < s.len() && truncated(s, max_len) == #[trigger] s.take(n) + "..."@
                && encode_utf8(s.take(n)).len() <= max_len,
{
    let bytes = encode_utf8(s);
    let end = cut_at(bytes, max_len) as int;
    cut_is_last_boundary(s, max_len);
    encode_utf8_valid_utf8(s);
    encode_utf8_decode_utf8(s);
    valid_utf8_split(bytes, end);
    decode_utf8_split(bytes, end);
    let head = decode_utf8(bytes.subrange(0, end));
    let tail = decode_utf8(bytes.subrange(end, bytes.len() as int));
    assert(s =~= head + tail);
    let n = head.len() as int;
    assert(s.take(n) =~= head);
    decode_utf8_encode_utf8(bytes.subrange(0, end));
    decode_utf8_encode_utf8(bytes.subrange(end, bytes.len() as int));
    if tail.len() == 0 {
        assert(encode_utf8(tail).len() == 0);
    }
    assert(truncated(s, max_len) == s.take(n) + "..."@);
}

/// Stripping what was stripped changes nothing more, and what is left does not
/// end in a character of the set.
pub proof fn trimming_the_end_is_final(s: Seq<char>, set: CharSet)
    ensures
        trimmed_end(trimmed_end(s, set), set) == trimmed_end(s, set),
        trimmed_end(s, set).len() > 0 ==> !set.holds(trimmed_end(s, set).last()),
    decreases s.len(),
{
    if s.len() > 0 && set.holds(s.last()) {
        trimming_the_end_is_final(s.drop_last(), set);
    }
}

proof fn lemma_end_padding(s: Seq<char>, back: Seq<char>, set: CharSet)
    requires
        forall|i: int| 0 <= i < back.len() ==> set.holds(#[trigger] back[i]),
        s.len() > 0,
        !set.holds(s.last()),
    ensures
        trimmed_end(s + back, set) == s,
    decreases back.len(),
{
    if back.len() > 0 {
        assert((s + back).last() == back[back.len() - 1]);
        assert((s + back).drop_last() =~= s + back.drop_last());
        assert forall|i: int| 0 <= i < back.drop_last().len() implies set.holds(
            #[trigger] back.drop_last()[i],
        ) by {
            assert(back.drop_last()[i] == back[i]);
        }
        lemma_end_padding(s, back.drop_last(), set);
    } else {
        assert(s + back =~= s);
    }
}

proof fn lemma_start_padding(front: Seq<char>, s: Seq<char>, set: CharSet)
    requires
        forall|i: int| 0 <= i < front.len() ==> set.holds(#[trigger] front[i]),
        s.len() > 0,
        !set.holds(s.first()),
    ensures
        trimmed_start(front + s, set) == s,
    decreases front.len(),
{
    if front.len() > 0 {
        assert((front + s).first() == front[0]);
        assert((front + s).drop_first() =~= front.drop_first() + s);
        assert forall|i: int| 0 <= i < front.drop_first().len() implies set.holds(
            #[trigger] front.drop_first()[i],
        ) by {
            assert(front.drop_first()[i] == front[i + 1]);
        }
        lemma_start_padding(front.drop_first(), s, set);
    } else {
        assert(front + s =~= s);
    }
}

/// Stripping takes off exactly what is put around a text that neither starts nor
/// ends in a character of the set.
pub proof fn trimming_takes_off_the_padding(
    front: Seq<char>,
    s: Seq<char>,
    back: Seq<char>,
    set: CharSet,
)
    requires
        forall|i: int| 0 <= i < front.len() ==> set.holds(#[trigger] front[i]),
        forall|i: int| 0 <= i < back.len() ==> set.holds(#[trigger] back[i]),
        s.len() > 0,
        !set.holds(s.first()),
        !set.holds(s.last()),
    ensures
        trimmed(front + s + back, set) == s,
{
    assert(front + s + back =~= front + (s + back));
    assert((s + back).first() == s.first());
    lemma_start_padding(front, s + back, set);
    lemma_end_padding(s, back, set);
}

/// In decimal a number below ten is one digit, and ten times a number and a digit
/// more is the number followed by that digit.
pub proof fn decimal_appends_digits(n: nat, d: nat)
    requires
        d < 10,
    ensures
        decimal(d) == seq!["0123456789"@[d as int]],
        n > 0 ==> decimal(10 * n + d) == decimal(n).push("0123456789"@[d as int]),
{
    reveal_strlit("0123456789");
    assert((10 * n + d) / 10 == n && (10 * n + d) % 10 == d);
}

/// A set of one character holds that character only; white space in ASCII is the
/// space, the tab, the line feed, the vertical tab, the form feed and the carriage
/// return.
pub proof fn character_sets_hold_their_characters(x: char, c: char)
    ensures
        CharSet::Only(x).holds(c) <==> c == x,
        c <= '\x7f' ==> (CharSet::WhiteSpace.holds(c) <==> c == ' ' || c == '\x09' || c == '\x0a'
            || c == '\x0b' || c == '\x0c' || c == '\x0d'),
        c > '\x7f' ==> CharSet::WhiteSpace.holds(c) == wide_white_space(c),
{
}

proof fn lemma_trimmed_end_splits(s: Seq<char>, set: CharSet)
    ensures
        trimmed_end(s, set).len() <= s.len(),
        trimmed_end(s, set) == s.take(trimmed_end(s, set).len() as int),
        forall|i: int| trimmed_end(s, set).len() <= i < s.len() ==> set.holds(#[trigger] s[i]),
        trimmed_end(s, set).len() > 0 ==> !set.holds(trimmed_end(s, set).last()),
    decreases s.len(),
{
    if s.len() > 0 && set.holds(s.last()) {
        let head = s.drop_last();
        lemma_trimmed_end_splits(head, set);
        let n = trimmed_end(s, set).len() as int;
        assert(head.take(n) =~= s.take(n));
        assert forall|i: int| n <= i < s.len() implies set.holds(#[trigger] s[i]) by {
            if i < head.len() {
                assert(head[i] == s[i]);
            }
        }
    } else {
        assert(s.take(s.len() as int) =~= s);
    }
}

proof fn lemma_trimmed_start_splits(s: Seq<char>, set: CharSet)
    ensures
        trimmed_start(s, set).len() <= s.len(),
        trimmed_start(s, set) == s.skip(s.len() - trimmed_start(s, set).len()),
        forall|i: int|
            0 <= i < s.len() - trimmed_start(s, set).len() ==> set.holds(#[trigger] s[i]),
        trimmed_start(s, set).len() > 0 ==> !set.holds(trimmed_start(s, set).first()),
    decreases s.len(),
{
    if s.len() > 0 && set.holds(s.first()) {
        let tail = s.drop_first();
        lemma_trimmed_start_splits(tail, set);
        let n = s.len() - trimmed_start(s, set).len();
        assert(tail.skip(n - 1) =~= s.skip(n));
        assert forall|i: int| 0 <= i < n implies set.holds(#[trigger] s[i]) by {
            if i > 0 {
                assert(tail[i - 1] == s[i]);
            }
        }
    } else {
        assert(s.skip(0) =~= s);
    }
}

/// Stripping the end of a text keeps its beginning, up to the last character that
/// is not in the set.
pub proof fn trimming_the_end_keeps_a_beginning(s: Seq<char>, set: CharSet)
    ensures
        ({
            let kept = trimmed_end(s, set);
            &&& kept.is_prefix_of(s)
            &&& forall|i: int| kept.len() <= i < s.len() ==> set.holds(#[trigger] s[i])
            &&& kept.len() > 0 ==> !set.holds(kept.last())
        }),
{
    lemma_trimmed_end_splits(s, set);
    assert(s.subrange(0, trimmed_end(s, set).len() as int) =~= s.take(
        trimmed_end(s, set).len() as int,
    ));
}

/// Stripping both ends of a text keeps what stands between characters of the set,
/// and that neither starts nor ends in one.
pub proof fn trimming_keeps_the_middle(s: Seq<char>, set: CharSet)
    ensures
        exists|from: int, to: int|
            {
                &&& 0 <= from <= to <= s.len()
                &&& trimmed(s, set) == #[trigger] s.subrange(from, to)
                &&& forall|i: int| 0 <= i < from ==> set.holds(#[trigger] s[i])
                &&& forall|i: int| to <= i < s.len() ==> set.holds(#[trigger] s[i])
                &&& from < to ==> !set.holds(s[from]) && !set.holds(s[to - 1])
            },
{
    let rest = trimmed_start(s, set);
    let kept = trimmed(s, set);
    lemma_trimmed_start_splits(s, set);
    lemma_trimmed_end_splits(rest, set);
    let from = s.len() - rest.len();
    let to = from + kept.len();
    assert(kept =~= s.subrange(from, to));
    assert forall|i: int| to <= i < s.len() implies set.holds(#[trigger] s[i]) by {
        assert(rest[i - from] == s[i]);
    }
    if from < to {
        assert(kept.last() == s[to - 1]);
        assert(rest.first() == s[from]);
    }
}

/// A text is escaped character by character: a double quote becomes a backslash and
/// a double quote, and any other character stays.
pub proof fn texts_are_escaped_by_character(s: Seq<char>, c: char)
    ensures
        escaped(Seq::<char>::empty()) == Seq::<char>::empty(),
        c == '"' ==> escaped(s.push(c)) == escaped(s) + seq!['\\', '"'],
        c != '"' ==> escaped(s.push(c)) == escaped(s).push(c),
{
    assert(s.push(c).drop_last() =~= s);
    assert(escaped(s).push('\\').push('"') =~= escaped(s) + seq!['\\', '"']);
}

proof fn lemma_prefix_is_boundary(s: Seq<char>, m: int)
    requires
        0 <= m <= s.len(),
    ensures
        is_char_boundary(encode_utf8(s), encode_utf8(s.take(m)).len() as int),
        encode_utf8(s.take(m)).len() <= encode_utf8(s).len(),
    decreases m,
{
    let bytes = encode_utf8(s);
    encode_utf8_valid_utf8(s);
    if m == 0 {
        assert(s.take(0) =~= Seq::<char>::empty());
        is_char_boundary_start_end_of_seq(bytes);
    } else {
        let tail = s.drop_first();
        encode_utf8_first_scalar(s);
        assert(s.take(m).drop_first() =~= tail.take(m - 1));
        assert(s.take(m)[0] == s[0]);
        encode_utf8_first_scalar(s.take(m));
        lemma_prefix_is_boundary(tail, m - 1);
        assert(pop_first_scalar(bytes) =~= encode_utf8(tail));
    }
}

/// A text that fits is logged as it is. One that does not is cut to its longest
/// beginning that fits, and marked by three dots.
pub proof fn truncation_keeps_the_longest_beginning(s: Seq<char>, max_len: nat)
    ensures
        encode_utf8(s).len() <= max_len ==> truncated(s, max_len) == s,
        encode_utf8(s).len() > max_len ==> exists|n: int|
            {
                &&& 0 <= n < s.len()
                &&& truncated(s, max_len) == #[trigger] s.take(n) + seq!['.', '.', '.']
                &&& encode_utf8(s.take(n)).len() <= max_len
                &&& encode_utf8(s.take(n + 1)).len() > max_len
            },
{
    if encode_utf8(s).len() > max_len {
        let bytes = encode_utf8(s);
        let end = cut_at(bytes, max_len) as int;
        truncation_keeps_a_prefix(s, max_len);
        cut_is_last_boundary(s, max_len);
        encode_utf8_valid_utf8(s);
        encode_utf8_decode_utf8(s);
        valid_utf8_split(bytes, end);
        decode_utf8_split(bytes, end);
        decode_utf8_encode_utf8(bytes.subrange(0, end));
        decode_utf8_encode_utf8(bytes.subrange(end, bytes.len() as int));
        let head = decode_utf8(bytes.subrange(0, end));
        let tail = decode_utf8(bytes.subrange(end, bytes.len() as int));
        let n = head.len() as int;
        assert(s =~= head + tail);
        assert(s.take(n) =~= head);
        if tail.len() == 0 {
            assert(encode_utf8(tail).len() == 0);
        }
        assert(encode_utf8(s.take(n)).len() == end);
        lemma_prefix_is_boundary(s, n + 1);
        lemma_longer_prefix(s, n);
        reveal_strlit("...");
        assert("..."@ =~= seq!['.', '.', '.']);
    }
}

proof fn lemma_longer_prefix(s: Seq<char>, n: int)
    requires
        0 <= n < s.len(),
    ensures
        encode_utf8(s.take(n + 1)).len() > encode_utf8(s.take(n)).len(),
    decreases n,
{
    let long = s.take(n + 1);
    let short = s.take(n);
    encode_utf8_first_scalar(long);
    if n > 0 {
        encode_utf8_first_scalar(short);
        assert(long.drop_first() =~= s.drop_first().take(n));
        assert(short.drop_first() =~= s.drop_first().take(n - 1));
        assert(long[0] == s[0] && short[0] == s[0]);
        lemma_longer_prefix(s.drop_first(), n - 1);
    } else {
        assert(short =~= Seq::<char>::empty());
    }
}

} // verus!
