//! Text building blocks: what the formatting, trimming and truncation used by
//! the rest of the crate mean on sequences of characters.

use vstd::prelude::*;
use vstd::string::*;
use vstd::utf8::*;

verus! {

/// `String::push` of std: appends one character.
pub assume_specification[ String::push ](s: &mut String, c: char)
    ensures
        final(s)@ == old(s)@.push(c),
;

/// The digit of value `d` in a base of at most sixteen, letters in lower case.
pub open spec fn digit(d: nat) -> char {
    if d < 10 {
        (48 + d) as char
    } else {
        (87 + d) as char
    }
}

/// The decimal notation of `n`, without leading zeros.
pub open spec fn decimal(n: nat) -> Seq<char>
    decreases n,
{
    if n < 10 {
        seq![digit(n)]
    } else {
        decimal(n / 10).push(digit(n % 10))
    }
}

/// Writes `n` in decimal.
pub fn decimal_text(n: u128) -> (r: String)
    ensures
        r@ == decimal(n as nat),
    decreases n,
{
    if n < 10 {
        let mut s = String::new();
        s.push((48 + n as u8) as char);
        proof {
            assert(s@ =~= seq![digit(n as nat)]);
        }
        s
    } else {
        let mut s = decimal_text(n / 10);
        s.push((48 + (n % 10) as u8) as char);
        s
    }
}

/// The characters of a text, one by one.
pub fn chars_of(s: &str) -> (r: Vec<char>)
    ensures
        r@ == s@,
{
    let mut r: Vec<char> = Vec::new();
    for c in it: s.chars()
        invariant
            it.seq() == s@,
            r@ == s@.take(it.index()),
    {
        proof {
            assert(s@.take(it.index() + 1) =~= s@.take(it.index()).push(c));
        }
        r.push(c);
    }
    proof {
        assert(s@.take(s@.len() as int) =~= s@);
    }
    r
}

/// The text of the characters `from..to`.
pub fn text_of(chars: &Vec<char>, from: usize, to: usize) -> (r: String)
    requires
        from <= to <= chars@.len(),
    ensures
        r@ == chars@.subrange(from as int, to as int),
{
    let mut r = String::new();
    let mut i: usize = from;
    while i < to
        invariant
            from <= i <= to <= chars@.len(),
            r@ == chars@.subrange(from as int, i as int),
        decreases to - i,
    {
        proof {
            assert(chars@.subrange(from as int, i + 1) =~= chars@.subrange(
                from as int,
                i as int,
            ).push(chars@[i as int]));
        }
        r.push(chars[i]);
        i += 1;
    }
    r
}

/// An owned copy of a text.
pub fn owned(s: &str) -> (r: String)
    ensures
        r@ == s@,
{
    s.to_owned()
}

/// Whether two texts hold the same characters.
pub fn same_text(a: &str, b: &str) -> (r: bool)
    ensures
        r == (a@ == b@),
{
    let x = chars_of(a);
    let y = chars_of(b);
    if x.len() != y.len() {
        return false;
    }
    let mut i: usize = 0;
    while i < x.len()
        invariant
            i <= x.len(),
            x@ == a@,
            y@ == b@,
            x@.len() == y@.len(),
            forall|j: int| 0 <= j < i ==> x@[j] == y@[j],
        decreases x.len() - i,
    {
        if x[i] != y[i] {
            return false;
        }
        i += 1;
    }
    proof {
        assert(x@ =~= y@);
    }
    true
}

/// Whether an ASCII character is white space: a space, or one of the characters
/// from the tab to the carriage return.
pub open spec fn ascii_white_space(c: char) -> bool {
    c == ' ' || ('\t' <= c && c <= '\r')
}

/// Whether a character beyond ASCII has the Unicode property White_Space.
pub uninterp spec fn wide_white_space(c: char) -> bool;

/// Whether a character is white space.
pub open spec fn white_space(c: char) -> bool {
    if c <= '\x7f' {
        ascii_white_space(c)
    } else {
        wide_white_space(c)
    }
}

/// `char::is_whitespace` of std. In ASCII the property holds of the space and of
/// the five characters from the tab to the carriage return. Beyond ASCII the
/// result depends on the character alone and is named by `wide_white_space`; which
/// characters have the property there is not stated.
#[verifier::external_body]
fn is_white_space(c: char) -> (r: bool)
    ensures
        c <= '\x7f' ==> r == ascii_white_space(c),
        c > '\x7f' ==> r == wide_white_space(c),
{
    c.is_whitespace()
}

/// A set of characters that may be stripped from the ends of a text.
#[derive(Clone, Copy)]
pub enum CharSet {
    WhiteSpace,
    Only(char),
}

impl CharSet {
    pub open spec fn holds(self, c: char) -> bool {
        match self {
            CharSet::WhiteSpace => white_space(c),
            CharSet::Only(x) => c == x,
        }
    }

    /// Whether the set holds `c`.
    pub fn contains(self, c: char) -> (r: bool)
        ensures
            r == self.holds(c),
    {
        match self {
            CharSet::WhiteSpace => is_white_space(c),
            CharSet::Only(x) => c == x,
        }
    }
}

/// `s` without its longest suffix of characters in `set`.
pub open spec fn trimmed_end(s: Seq<char>, set: CharSet) -> Seq<char>
    decreases s.len(),
{
    if s.len() > 0 && set.holds(s.last()) {
        trimmed_end(s.drop_last(), set)
    } else {
        s
    }
}

/// `s` without its longest prefix of characters in `set`.
pub open spec fn trimmed_start(s: Seq<char>, set: CharSet) -> Seq<char>
    decreases s.len(),
{
    if s.len() > 0 && set.holds(s.first()) {
        trimmed_start(s.drop_first(), set)
    } else {
        s
    }
}

/// `s` stripped at both ends of the characters in `set`.
pub open spec fn trimmed(s: Seq<char>, set: CharSet) -> Seq<char> {
    trimmed_end(trimmed_start(s, set), set)
}

/// Strips the characters in `set` from the end of a text.
pub fn trim_end(s: &str, set: CharSet) -> (r: String)
    ensures
        r@ == trimmed_end(s@, set),
{
    let chars = chars_of(s);
    let mut end: usize = chars.len();
    proof {
        assert(s@.take(end as int) =~= s@);
    }
    while end > 0 && set.contains(chars[end - 1])
        invariant
            end <= chars@.len(),
            chars@ == s@,
            trimmed_end(s@, set) == trimmed_end(s@.take(end as int), set),
        decreases end,
    {
        proof {
            assert(s@.take(end as int).drop_last() =~= s@.take(end - 1));
        }
        end -= 1;
    }
    let r = text_of(&chars, 0, end);
    proof {
        assert(s@.subrange(0, end as int) =~= s@.take(end as int));
    }
    r
}

/// Strips the characters in `set` from both ends of a text.
pub fn trim(s: &str, set: CharSet) -> (r: String)
    ensures
        r@ == trimmed(s@, set),
{
    let chars = chars_of(s);
    let mut start: usize = 0;
    proof {
        assert(s@.skip(0) =~= s@);
    }
    while start < chars.len() && set.contains(chars[start])
        invariant
            start <= chars@.len(),
            chars@ == s@,
            trimmed_start(s@, set) == trimmed_start(s@.skip(start as int), set),
        decreases chars@.len() - start,
    {
        proof {
            assert(s@.skip(start as int).drop_first() =~= s@.skip(start + 1));
        }
        start += 1;
    }
    let rest = text_of(&chars, start, chars.len());
    proof {
        assert(rest@ =~= s@.skip(start as int));
    }
    trim_end(rest.as_str(), set)
}

/// `s` with a backslash before every double quote.
pub open spec fn escaped(s: Seq<char>) -> Seq<char>
    decreases s.len(),
{
    if s.len() == 0 {
        s
    } else if s.last() == '"' {
        escaped(s.drop_last()).push('\\').push('"')
    } else {
        escaped(s.drop_last()).push(s.last())
    }
}

/// Puts a backslash before every double quote.
pub fn shell_escape(value: &str) -> (r: String)
    ensures
        r@ == escaped(value@),
{
    let chars = chars_of(value);
    let mut r = String::new();
    let mut i: usize = 0;
    while i < chars.len()
        invariant
            i <= chars@.len(),
            chars@ == value@,
            r@ == escaped(value@.take(i as int)),
        decreases chars@.len() - i,
    {
        proof {
            assert(value@.take(i + 1).drop_last() =~= value@.take(i as int));
            assert(value@.take(i + 1).last() == value@[i as int]);
        }
        if chars[i] == '"' {
            r.push('\\');
        }
        r.push(chars[i]);
        i += 1;
    }
    proof {
        assert(value@.take(i as int) =~= value@);
    }
    r
}

/// The last position up to `max_len` at which a UTF-8 encoded text can be cut
/// without splitting a character.
pub open spec fn cut_at(bytes: Seq<u8>, max_len: nat) -> nat
    decreases max_len,
{
    if max_len == 0 || is_char_boundary(bytes, max_len as int) {
        max_len
    } else {
        cut_at(bytes, (max_len - 1) as nat)
    }
}

/// A text as it is logged: whole if its encoding has at most `max_len` bytes,
/// else cut at the last character boundary up to there and marked by an ellipsis.
pub open spec fn truncated(s: Seq<char>, max_len: nat) -> Seq<char> {
    let bytes = encode_utf8(s);
    if bytes.len() <= max_len {
        s
    } else {
        decode_utf8(bytes.subrange(0, cut_at(bytes, max_len) as int)) + "..."@
    }
}

/// Shortens a text to at most `max_len` bytes of UTF-8, followed by an ellipsis
/// where something was cut off.
pub fn truncate_for_log(value: &str, max_len: usize) -> (r: String)
    ensures
        r@ == truncated(value@, max_len as nat),
{
    let ghost bytes = encode_utf8(value@);
    if value.as_bytes().len() <= max_len {
        return owned(value);
    }
    proof {
        encode_utf8_valid_utf8(value@);
        is_char_boundary_start_end_of_seq(bytes);
    }
    let mut end: usize = max_len;
    while !value.is_char_boundary(end)
        invariant
            end <= max_len < bytes.len(),
            bytes == encode_utf8(value@),
            is_char_boundary(bytes, 0),
            cut_at(bytes, max_len as nat) == cut_at(bytes, end as nat),
        decreases end,
    {
        end -= 1;
    }
    let (head, _tail) = value.split_at(end);
    proof {
        encode_utf8_decode_utf8(head@);
        assert(head.spec_bytes() == bytes.subrange(0, end as int));
    }
    let mut r = owned(head);
    r.append("...");
    r
}

} // verus!
