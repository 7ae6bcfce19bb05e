//! Character sequences: ASCII case, white space, lines, decimal numbers and
//! the order in which texts are compared.

use vstd::prelude::*;

verus! {

// ---- what std does to strings ----

/// `String::push` appends one character.
pub assume_specification[ String::push ](s: &mut String, c: char)
    ensures
        final(s)@ == old(s)@.push(c),
;

/// `str::to_ascii_uppercase` replaces the letters `a` to `z` by `A` to `Z` and
/// keeps every other character.
pub assume_specification[ str::to_ascii_uppercase ](s: &str) -> (result: String)
    ensures
        result@ == to_upper(s@),
;

/// `str::to_ascii_lowercase` replaces the letters `A` to `Z` by `a` to `z` and
/// keeps every other character.
pub assume_specification[ str::to_ascii_lowercase ](s: &str) -> (result: String)
    ensures
        result@ == to_lower(s@),
;

/// `str::trim` drops the leading and trailing characters that have the Unicode
/// property `White_Space`.
pub assume_specification[ str::trim ](s: &str) -> (inner: &str)
    ensures
        inner@ == trimmed(s@),
;

/// The upper-case form of an ASCII letter; any other character is itself.
pub open spec fn upper(c: char) -> char {
    if 'a' <= c && c <= 'z' {
        (c as u32 - 32) as char
    } else {
        c
    }
}

/// The lower-case form of an ASCII letter; any other character is itself.
pub open spec fn lower(c: char) -> char {
    if 'A' <= c && c <= 'Z' {
        (c as u32 + 32) as char
    } else {
        c
    }
}

pub open spec fn to_upper(s: Seq<char>) -> Seq<char> {
    s.map_values(|c: char| upper(c))
}

pub open spec fn to_lower(s: Seq<char>) -> Seq<char> {
    s.map_values(|c: char| lower(c))
}

/// The Unicode property `White_Space`.
pub open spec fn is_white_space(c: char) -> bool {
    let n = c as u32;
    ||| 0x09 <= n <= 0x0d
    ||| n == 0x20
    ||| n == 0x85
    ||| n == 0xa0
    ||| n == 0x1680
    ||| 0x2000 <= n <= 0x200a
    ||| n == 0x2028
    ||| n == 0x2029
    ||| n == 0x202f
    ||| n == 0x205f
    ||| n == 0x3000
}

/// `s` without its leading white space.
pub open spec fn trimmed_start(s: Seq<char>) -> Seq<char>
    decreases s.len(),
{
    if s.len() > 0 && is_white_space(s.first()) {
        trimmed_start(s.drop_first())
    } else {
        s
    }
}

/// `s` without its trailing white space.
pub open spec fn trimmed_end(s: Seq<char>) -> Seq<char>
    decreases s.len(),
{
    if s.len() > 0 && is_white_space(s.last()) {
        trimmed_end(s.drop_last())
    } else {
        s
    }
}

/// `s` without the white space around it.
pub open spec fn trimmed(s: Seq<char>) -> Seq<char> {
    trimmed_end(trimmed_start(s))
}

/// The characters of `s`, in order.
pub(crate) fn chars_of(s: &str) -> (chars: Vec<char>)
    ensures
        chars@ == s@,
{
    let mut chars: Vec<char> = Vec::new();
    for c in it: s.chars()
        invariant
            chars@ == it.seq().take(it.index()),
            it.seq() == s@,
    {
        chars.push(c);
        assert(it.seq().take(it.index() + 1) =~= it.seq().take(it.index()).push(c));
    }
    assert(s@.take(s@.len() as int) =~= s@);
    chars
}

/// The text that `chars` spells.
pub(crate) fn text_of(chars: &Vec<char>) -> (s: String)
    ensures
        s@ == chars@,
{
    let mut s: String = String::new();
    for i in 0..chars.len()
        invariant
            s@ == chars@.take(i as int),
    {
        s.push(chars[i]);
        assert(chars@.take(i + 1) =~= chars@.take(i as int).push(chars@[i as int]));
    }
    assert(chars@.take(chars@.len() as int) =~= chars@);
    s
}

// ---- lines ----

/// A line as it stands before its line feed, without the carriage return that
/// may close it.
pub open spec fn without_cr(line: Seq<char>) -> Seq<char> {
    if line.len() > 0 && line.last() == '\r' {
        line.drop_last()
    } else {
        line
    }
}

/// The lines of `open + s`, where `open` is what the current line holds so
/// far: a line ends at `\n` or `\r\n`, and the last line needs no ending.
pub open spec fn lines_after(open: Seq<char>, s: Seq<char>) -> Seq<Seq<char>>
    decreases s.len(),
{
    if s.len() == 0 {
        if open.len() == 0 {
            Seq::empty()
        } else {
            seq![open]
        }
    } else if s.first() == '\n' {
        seq![without_cr(open)] + lines_after(Seq::empty(), s.drop_first())
    } else {
        lines_after(open.push(s.first()), s.drop_first())
    }
}

/// The lines of a text.
pub open spec fn lines_of(s: Seq<char>) -> Seq<Seq<char>> {
    lines_after(Seq::empty(), s)
}

/// The texts that a list of strings holds.
pub open spec fn texts(list: Seq<String>) -> Seq<Seq<char>> {
    list.map_values(|s: String| s@)
}

pub(crate) proof fn lemma_texts_push(list: Seq<String>, s: String)
    ensures
        texts(list.push(s)) == texts(list).push(s@),
{
    assert(texts(list.push(s)) =~= texts(list).push(s@));
}

/// Splits a text into its lines.
pub(crate) fn split_lines(text: &str) -> (lines: Vec<String>)
    ensures
        texts(lines@) == lines_of(text@),
{
    let chars = chars_of(text);
    let mut lines: Vec<String> = Vec::new();
    let mut open: Vec<char> = Vec::new();
    assert(chars@.skip(0) =~= chars@);
    assert(texts(lines@) =~= Seq::empty());
    assert(Seq::<Seq<char>>::empty() + lines_of(text@) =~= lines_of(text@));
    for i in 0..chars.len()
        invariant
            chars@ == text@,
            texts(lines@) + lines_after(open@, chars@.skip(i as int)) == lines_of(text@),
    {
        let c = chars[i];
        let ghost rest = chars@.skip(i as int);
        let ghost before = lines@;
        let ghost open_before = open@;
        assert(rest.drop_first() =~= chars@.skip(i + 1));
        if c == '\n' {
            if open.len() > 0 && open[open.len() - 1] == '\r' {
                open.pop();
            }
            lines.push(text_of(&open));
            proof {
                lemma_texts_push(before, lines@.last());
                assert(lines@.last()@ == without_cr(open_before));
                assert(texts(before).push(without_cr(open_before)) + lines_after(
                    Seq::empty(),
                    rest.drop_first(),
                ) =~= texts(before) + (seq![without_cr(open_before)] + lines_after(
                    Seq::empty(),
                    rest.drop_first(),
                )));
            }
            open = Vec::new();
        } else {
            open.push(c);
        }
    }
    if open.len() > 0 {
        let ghost before = lines@;
        lines.push(text_of(&open));
        proof {
            lemma_texts_push(before, lines@.last());
            assert(texts(before).push(open@) =~= texts(before) + seq![open@]);
        }
    } else {
        assert(texts(lines@) + Seq::empty() =~= texts(lines@));
    }
    lines
}

/// Whether `s` begins with `prefix`.
pub(crate) fn starts_with(s: &Vec<char>, prefix: &str) -> (found: bool)
    ensures
        found == prefix@.is_prefix_of(s@),
{
    let wanted = chars_of(prefix);
    if wanted.len() > s.len() {
        return false;
    }
    for i in 0..wanted.len()
        invariant
            wanted@ == prefix@,
            wanted.len() <= s.len(),
            forall|j: int| 0 <= j < i ==> wanted@[j] == s@[j],
    {
        if wanted[i] != s[i] {
            assert(s@.subrange(0, wanted@.len() as int)[i as int] != wanted@[i as int]);
            return false;
        }
    }
    assert(s@.subrange(0, wanted@.len() as int) =~= wanted@);
    true
}

// ---- equality and order ----

/// Whether two texts are the same.
pub(crate) fn same_text(a: &str, b: &str) -> (same: bool)
    ensures
        same == (a@ == b@),
{
    let left = chars_of(a);
    let right = chars_of(b);
    if left.len() != right.len() {
        return false;
    }
    for i in 0..left.len()
        invariant
            left@ == a@,
            right@ == b@,
            left.len() == right.len(),
            forall|j: int| 0 <= j < i ==> left@[j] == right@[j],
    {
        if left[i] != right[i] {
            return false;
        }
    }
    assert(left@ =~= right@);
    true
}

/// Whether `a` stands before `b` in the order of their code points, compared
/// from the left; a text stands after each of its own beginnings.
pub open spec fn text_before(a: Seq<char>, b: Seq<char>) -> bool
    decreases b.len(),
{
    if b.len() == 0 {
        false
    } else if a.len() == 0 {
        true
    } else if a.first() == b.first() {
        text_before(a.drop_first(), b.drop_first())
    } else {
        a.first() < b.first()
    }
}

/// Of two texts at most one stands before the other.
pub(crate) proof fn lemma_text_before_asymmetric(a: Seq<char>, b: Seq<char>)
    ensures
        !(text_before(a, b) && text_before(b, a)),
    decreases a.len(),
{
    if a.len() > 0 && b.len() > 0 {
        lemma_text_before_asymmetric(a.drop_first(), b.drop_first());
    }
}

/// A text that stands before `c` stands before `b` too, or `b` before `c`.
pub(crate) proof fn lemma_text_before_total(a: Seq<char>, b: Seq<char>, c: Seq<char>)
    ensures
        text_before(a, c) ==> text_before(a, b) || text_before(b, c),
    decreases a.len() + b.len() + c.len(),
{
    if a.len() > 0 && b.len() > 0 && c.len() > 0 {
        lemma_text_before_total(a.drop_first(), b.drop_first(), c.drop_first());
    }
}

/// Compares two texts by their code points.
pub(crate) fn is_text_before(a: &str, b: &str) -> (before: bool)
    ensures
        before == text_before(a@, b@),
{
    let left = chars_of(a);
    let right = chars_of(b);
    let mut i: usize = 0;
    assert(left@.skip(0) =~= left@);
    assert(right@.skip(0) =~= right@);
    while i < left.len() && i < right.len()
        invariant
            left@ == a@,
            right@ == b@,
            i <= left.len(),
            i <= right.len(),
            text_before(a@, b@) == text_before(left@.skip(i as int), right@.skip(i as int)),
        decreases left.len() - i,
    {
        assert(left@.skip(i as int).drop_first() =~= left@.skip(i + 1));
        assert(right@.skip(i as int).drop_first() =~= right@.skip(i + 1));
        if left[i] != right[i] {
            return left[i] < right[i];
        }
        i += 1;
    }
    i < right.len()
}

// ---- decimal numbers ----

/// The decimal digit of value `d`.
pub open spec fn digit(d: nat) -> char {
    (48 + d) as u8 as char
}

/// The decimal notation of `n`.
pub open spec fn decimal(n: nat) -> Seq<char>
    decreases n,
{
    if n < 10 {
        seq![digit(n)]
    } else {
        decimal(n / 10).push(digit(n % 10))
    }
}

/// Appends the decimal notation of `n`.
pub(crate) fn push_decimal(out: &mut String, n: u8)
    ensures
        final(out)@ == old(out)@ + decimal(n as nat),
    decreases n,
{
    if n >= 10 {
        push_decimal(out, n / 10);
    }
    out.push((48u8 + n % 10) as char);
    assert(out@ =~= old(out)@ + decimal(n as nat));
}

} // verus!
