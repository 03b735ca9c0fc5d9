//! Text primitives over sequences of characters: decoding a string slice into
//! its characters, substring and prefix tests, line splitting and decimal
//! numerals.

use vstd::prelude::*;

verus! {

/// `needle` stands in `hay` at offset `at`.
pub open spec fn occurs_at(hay: Seq<char>, needle: Seq<char>, at: int) -> bool {
    &&& 0 <= at
    &&& at + needle.len() <= hay.len()
    &&& hay.subrange(at, at + needle.len()) == needle
}

/// `needle` is a contiguous part of `hay`. The empty text is part of every text.
pub open spec fn has_substring(hay: Seq<char>, needle: Seq<char>) -> bool {
    exists|at: int| occurs_at(hay, needle, at)
}

/// The offset of the first line feed in `s`, or `s.len()` where it has none.
pub open spec fn first_newline(s: Seq<char>) -> int
    decreases s.len(),
{
    if s.len() == 0 || s[0] == '\n' {
        0
    } else {
        1 + first_newline(s.drop_first())
    }
}

/// `s` without one trailing carriage return.
pub open spec fn without_trailing_cr(s: Seq<char>) -> Seq<char> {
    if s.len() > 0 && s.last() == '\r' {
        s.drop_last()
    } else {
        s
    }
}

/// The lines of `s`. A line ends at a line feed; the line feed, and a carriage
/// return directly before it, belong to no line. What follows the last line
/// feed is a line of its own unless it is empty, and keeps a carriage return
/// at its end.
pub open spec fn lines_of(s: Seq<char>) -> Seq<Seq<char>>
    decreases s.len(),
{
    if s.len() == 0 {
        Seq::empty()
    } else {
        let k = first_newline(s);
        if 0 <= k < s.len() {
            seq![without_trailing_cr(s.subrange(0, k))] + lines_of(s.subrange(k + 1, s.len() as int))
        } else {
            seq![s]
        }
    }
}

/// The character that writes the digit `d`.
pub open spec fn digit_char(d: nat) -> char {
    if d == 0 {
        '0'
    } else if d == 1 {
        '1'
    } else if d == 2 {
        '2'
    } else if d == 3 {
        '3'
    } else if d == 4 {
        '4'
    } else if d == 5 {
        '5'
    } else if d == 6 {
        '6'
    } else if d == 7 {
        '7'
    } else if d == 8 {
        '8'
    } else {
        '9'
    }
}

/// The decimal numeral of `n`, without leading zeros.
pub open spec fn decimal(n: nat) -> Seq<char>
    decreases n,
{
    if n < 10 {
        seq![digit_char(n)]
    } else {
        decimal(n / 10).push(digit_char(n % 10))
    }
}

/// The views of a sequence of string slices.
pub open spec fn slice_texts(parts: Seq<&str>) -> Seq<Seq<char>> {
    Seq::new(parts.len(), |i: int| parts[i]@)
}

/// The views of a sequence of strings.
pub open spec fn texts(items: Seq<String>) -> Seq<Seq<char>> {
    Seq::new(items.len(), |i: int| items[i]@)
}

/// An offset with no line feed before it, and one at it unless it is the
/// length, is `first_newline`.
pub proof fn lemma_first_newline_is(s: Seq<char>, k: int)
    requires
        0 <= k <= s.len(),
        forall|j: int| 0 <= j < k ==> s[j] != '\n',
        k < s.len() ==> s[k] == '\n',
    ensures
        first_newline(s) == k,
    decreases s.len(),
{
    if s.len() == 0 || s[0] == '\n' {
    } else {
        let rest = s.drop_first();
        assert forall|j: int| 0 <= j < k - 1 implies rest[j] != '\n' by {
            assert(rest[j] == s[j + 1]);
        }
        assert(k - 1 < rest.len() ==> rest[k - 1] == s[k]);
        lemma_first_newline_is(rest, k - 1);
    }
}

/// The characters of `s`, in order.
pub fn chars_of(s: &str) -> (chars: Vec<char>)
    ensures
        chars@ == s@,
{
    let mut chars: Vec<char> = Vec::new();
    for c in it: s.chars()
        invariant
            it.seq() == s@,
            chars@ == s@.take(it.index()),
    {
        chars.push(c);
    }
    chars
}

/// Whether `needle` stands in `hay` at offset `at`.
pub fn matches_at(hay: &Vec<char>, needle: &Vec<char>, at: usize) -> (found: bool)
    requires
        at + needle@.len() <= hay@.len(),
    ensures
        found == occurs_at(hay@, needle@, at as int),
{
    let n: usize = hay.len();
    let m: usize = needle.len();
    let mut j: usize = 0;
    while j < m
        invariant
            n == hay@.len(),
            m == needle@.len(),
            at + m <= n,
            j <= m,
            forall|t: int| 0 <= t < j ==> hay@[at + t] == needle@[t],
        decreases m - j,
    {
        if hay[at + j] != needle[j] {
            proof {
                let part = hay@.subrange(at as int, at + m);
                assert(part[j as int] == hay@[at + j]);
            }
            return false;
        }
        j += 1;
    }
    assert(hay@.subrange(at as int, at + m) =~= needle@);
    true
}

/// Substring test on decoded characters.
pub fn chars_contain(hay: &Vec<char>, needle: &Vec<char>) -> (found: bool)
    ensures
        found == has_substring(hay@, needle@),
{
    let n: usize = hay.len();
    let m: usize = needle.len();
    if m > n {
        return false;
    }
    let last: usize = n - m;
    let mut at: usize = 0;
    loop
        invariant
            n == hay@.len(),
            m == needle@.len(),
            last == n - m,
            at <= last,
            forall|t: int| 0 <= t < at ==> !occurs_at(hay@, needle@, t),
        decreases last - at,
    {
        if matches_at(hay, needle, at) {
            return true;
        }
        if at == last {
            return false;
        }
        at += 1;
    }
}

/// Whether `hay` contains `needle` as a plain substring: no word boundaries,
/// no case folding.
pub fn contains(hay: &str, needle: &str) -> (found: bool)
    ensures
        found == has_substring(hay@, needle@),
{
    let h = chars_of(hay);
    let n = chars_of(needle);
    chars_contain(&h, &n)
}

/// Whether `text` begins with `prefix`.
pub fn starts_with(text: &str, prefix: &str) -> (yes: bool)
    ensures
        yes == prefix@.is_prefix_of(text@),
{
    let t = chars_of(text);
    let p = chars_of(prefix);
    if p.len() > t.len() {
        return false;
    }
    let found = matches_at(&t, &p, 0);
    proof {
        if found {
            assert(t@.subrange(0, p@.len() as int) == p@);
        }
        if prefix@.is_prefix_of(text@) {
            assert(t@.subrange(0, p@.len() as int) =~= p@);
        }
    }
    found
}

/// Whether two string slices hold the same text.
pub fn same_text(a: &str, b: &str) -> (same: bool)
    ensures
        same == (a@ == b@),
{
    let x = chars_of(a);
    let y = chars_of(b);
    if x.len() != y.len() {
        return false;
    }
    let found = matches_at(&x, &y, 0);
    proof {
        assert(x@.subrange(0, x@.len() as int) =~= x@);
    }
    found
}

/// The offset of the first line feed at or after `from`, or the length.
fn find_newline(chars: &Vec<char>, from: usize) -> (stop: usize)
    requires
        from <= chars@.len(),
    ensures
        from <= stop <= chars@.len(),
        stop - from == first_newline(chars@.subrange(from as int, chars@.len() as int)),
{
    let n: usize = chars.len();
    let mut stop: usize = from;
    while stop < n && chars[stop] != '\n'
        invariant
            n == chars@.len(),
            from <= stop <= n,
            forall|j: int| from <= j < stop ==> chars@[j] != '\n',
        decreases n - stop,
    {
        stop += 1;
    }
    proof {
        let rest = chars@.subrange(from as int, n as int);
        assert forall|j: int| 0 <= j < stop - from implies rest[j] != '\n' by {
            assert(rest[j] == chars@[from + j]);
        }
        lemma_first_newline_is(rest, stop - from);
    }
    stop
}

/// Splits `content` into its lines, in order.
pub fn split_lines<'a>(content: &'a str) -> (lines: Vec<&'a str>)
    ensures
        slice_texts(lines@) == lines_of(content@),
{
    let chars = chars_of(content);
    let n: usize = chars.len();
    let mut lines: Vec<&'a str> = Vec::new();
    let mut start: usize = 0;
    proof {
        assert(content@.subrange(0, n as int) =~= content@);
        assert(slice_texts(lines@) =~= Seq::<Seq<char>>::empty());
    }
    while start < n
        invariant
            chars@ == content@,
            n == chars@.len(),
            start <= n,
            slice_texts(lines@) + lines_of(content@.subrange(start as int, n as int)) == lines_of(
                content@,
            ),
        decreases n - start,
    {
        let ghost rest = content@.subrange(start as int, n as int);
        let ghost before = slice_texts(lines@);
        let stop = find_newline(&chars, start);
        if stop < n {
            let mut end: usize = stop;
            if end > start && chars[end - 1] == '\r' {
                end -= 1;
            }
            let line = content.substring_char(start, end);
            lines.push(line);
            proof {
                let k = stop - start;
                assert(rest.subrange(0, k) =~= content@.subrange(start as int, stop as int));
                assert(line@ =~= without_trailing_cr(rest.subrange(0, k)));
                assert(rest.subrange(k + 1, rest.len() as int) =~= content@.subrange(
                    stop + 1,
                    n as int,
                ));
                assert(slice_texts(lines@) =~= before.push(line@));
                assert(before.push(line@) + lines_of(content@.subrange(stop + 1, n as int))
                    =~= before + lines_of(rest));
            }
            start = stop + 1;
        } else {
            let line = content.substring_char(start, n);
            lines.push(line);
            proof {
                assert(line@ == rest);
                assert(slice_texts(lines@) =~= before.push(line@));
                assert(lines_of(content@.subrange(n as int, n as int)) =~= Seq::<
                    Seq<char>,
                >::empty());
                assert(before.push(line@) + Seq::<Seq<char>>::empty() =~= before + lines_of(rest));
            }
            start = n;
        }
    }
    proof {
        assert(lines_of(content@.subrange(n as int, n as int)) =~= Seq::<Seq<char>>::empty());
        assert(slice_texts(lines@) + Seq::<Seq<char>>::empty() =~= slice_texts(lines@));
    }
    lines
}

/// The string that writes the digit `d`.
fn digit_str(d: usize) -> (s: &'static str)
    requires
        d < 10,
    ensures
        s@ == seq![digit_char(d as nat)],
{
    proof {
        reveal_strlit("0");
        reveal_strlit("1");
        reveal_strlit("2");
        reveal_strlit("3");
        reveal_strlit("4");
        reveal_strlit("5");
        reveal_strlit("6");
        reveal_strlit("7");
        reveal_strlit("8");
        reveal_strlit("9");
    }
    let s = if d == 0 {
        "0"
    } else if d == 1 {
        "1"
    } else if d == 2 {
        "2"
    } else if d == 3 {
        "3"
    } else if d == 4 {
        "4"
    } else if d == 5 {
        "5"
    } else if d == 6 {
        "6"
    } else if d == 7 {
        "7"
    } else if d == 8 {
        "8"
    } else {
        "9"
    };
    assert(s@ =~= seq![digit_char(d as nat)]);
    s
}

/// Writes `n` in decimal, without leading zeros.
pub fn decimal_string(n: usize) -> (s: String)
    ensures
        s@ == decimal(n as nat),
    decreases n,
{
    if n < 10 {
        String::from_str(digit_str(n))
    } else {
        let mut s = decimal_string(n / 10);
        s.append(digit_str(n % 10));
        assert(s@ =~= decimal((n / 10) as nat).push(digit_char((n % 10) as nat)));
        s
    }
}

} // verus!
