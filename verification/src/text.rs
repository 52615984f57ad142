//! Character-level building blocks: whitespace, trimming, line splitting,
//! case folding and substring search, each with its mathematical model.

use vstd::prelude::*;
use vstd::std_specs::iter::IteratorSpec;

verus! {

/// Whether `c` carries the Unicode `White_Space` property.
pub open spec fn is_space(c: char) -> bool {
    let n = c as u32;
    ||| 0x09 <= n <= 0x0D
    ||| n == 0x20
    ||| n == 0x85
    ||| n == 0xA0
    ||| n == 0x1680
    ||| 0x2000 <= n <= 0x200A
    ||| n == 0x2028
    ||| n == 0x2029
    ||| n == 0x202F
    ||| n == 0x205F
    ||| n == 0x3000
}

/// `s` without its leading whitespace.
pub open spec fn trim_start(s: Seq<char>) -> Seq<char>
    decreases s.len(),
{
    if s.len() > 0 && is_space(s.first()) {
        trim_start(s.drop_first())
    } else {
        s
    }
}

/// `s` without its trailing whitespace.
pub open spec fn trim_end(s: Seq<char>) -> Seq<char>
    decreases s.len(),
{
    if s.len() > 0 && is_space(s.last()) {
        trim_end(s.drop_last())
    } else {
        s
    }
}

/// `s` without leading and trailing whitespace.
pub open spec fn trim(s: Seq<char>) -> Seq<char> {
    trim_end(trim_start(s))
}

/// The length of the word that `s` begins with: of its longest beginning
/// without whitespace.
pub open spec fn word_length(s: Seq<char>) -> int
    decreases s.len(),
{
    if s.len() == 0 || is_space(s.first()) {
        0
    } else {
        1 + word_length(s.drop_first())
    }
}

/// The first word of `s`: what stands between its leading whitespace and
/// the next whitespace; empty where `s` is all whitespace.
pub open spec fn first_word(s: Seq<char>) -> Seq<char> {
    trim_start(s).take(word_length(trim_start(s)))
}

/// The offset of the first `c` in `s`, or the length of `s` where it holds none.
pub open spec fn offset_of(s: Seq<char>, c: char) -> int
    decreases s.len(),
{
    if s.len() == 0 || s.first() == c {
        0
    } else {
        1 + offset_of(s.drop_first(), c)
    }
}

/// The lines of `s`: the stretches between line feeds, without the line feeds.
/// A text of `n` line feeds has `n + 1` lines, the last of them possibly empty.
pub open spec fn split_lines(s: Seq<char>) -> Seq<Seq<char>>
    decreases s.len(),
{
    let n = offset_of(s, '\n');
    if 0 <= n < s.len() {
        seq![s.take(n)] + split_lines(s.skip(n + 1))
    } else {
        seq![s]
    }
}

/// The code point of `c`, with the ASCII capitals mapped to their small letters.
pub open spec fn ascii_fold(c: char) -> u32 {
    let n = c as u32;
    if 0x41 <= n <= 0x5A {
        (n + 0x20) as u32
    } else {
        n
    }
}

/// Whether `a` and `b` are equal up to the case of their ASCII letters.
pub open spec fn eq_ignore_ascii_case(a: Seq<char>, b: Seq<char>) -> bool {
    &&& a.len() == b.len()
    &&& forall|i: int| 0 <= i < a.len() ==> ascii_fold(#[trigger] a[i]) == ascii_fold(b[i])
}

/// Whether `needle` stands in `hay` at offset `i`.
pub open spec fn occurs_at(hay: Seq<char>, needle: Seq<char>, i: int) -> bool {
    &&& 0 <= i
    &&& i + needle.len() <= hay.len()
    &&& hay.subrange(i, i + needle.len()) == needle
}

/// Whether `needle` is a contiguous part of `hay`. The empty text is part of every text.
pub open spec fn contains(hay: Seq<char>, needle: Seq<char>) -> bool {
    exists|i: int| occurs_at(hay, needle, i)
}

/// The offset of the first `c` lies within `s`, nothing before it is `c`,
/// and where it is short of the end, `c` stands there.
pub proof fn lemma_offset_of(s: Seq<char>, c: char)
    ensures
        0 <= offset_of(s, c) <= s.len(),
        forall|i: int| 0 <= i < offset_of(s, c) ==> s[i] != c,
        offset_of(s, c) < s.len() ==> s[offset_of(s, c)] == c,
    decreases s.len(),
{
    if s.len() == 0 || s.first() == c {
    } else {
        let t = s.drop_first();
        lemma_offset_of(t, c);
        assert forall|i: int| 0 <= i < offset_of(s, c) implies s[i] != c by {
            if i > 0 {
                assert(s[i] == t[i - 1]);
            }
        }
        if offset_of(s, c) < s.len() {
            assert(s[offset_of(s, c)] == t[offset_of(t, c)]);
        }
    }
}

/// A text has at least one line.
pub proof fn lemma_split_lines_nonempty(s: Seq<char>)
    ensures
        split_lines(s).len() >= 1,
    decreases s.len(),
{
    let n = offset_of(s, '\n');
    if 0 <= n < s.len() {
        lemma_split_lines_nonempty(s.skip(n + 1));
    }
}

/// Line `k` of `s`, and how the lines after it begin, told from where line `k` begins.
pub proof fn lemma_line_at(s: Seq<char>, pos: int, k: int)
    requires
        0 <= pos <= s.len(),
        0 <= k < split_lines(s).len(),
        split_lines(s).skip(k) == split_lines(s.skip(pos)),
    ensures
        ({
            let n = offset_of(s.skip(pos), '\n');
            &&& 0 <= n <= s.len() - pos
            &&& split_lines(s)[k] == s.subrange(pos, pos + n)
            &&& pos + n < s.len() ==> {
                &&& k + 1 < split_lines(s).len()
                &&& split_lines(s).skip(k + 1) == split_lines(s.skip(pos + n + 1))
            }
            &&& pos + n >= s.len() ==> split_lines(s).len() == k + 1
        }),
{
    let all = split_lines(s);
    let rest = s.skip(pos);
    let n = offset_of(rest, '\n');
    lemma_offset_of(rest, '\n');
    assert(all.skip(k)[0] == all[k]);
    if n < rest.len() {
        let tail = split_lines(rest.skip(n + 1));
        lemma_split_lines_nonempty(rest.skip(n + 1));
        assert(rest.skip(n + 1) =~= s.skip(pos + n + 1));
        assert((seq![rest.take(n)] + tail).skip(1) =~= tail);
    } else {
        assert(split_lines(rest) == seq![rest]);
    }
}

/// Decides [`is_space`].
pub fn is_whitespace(c: char) -> (b: bool)
    ensures
        b == is_space(c),
{
    let n: u32 = c as u32;
    (0x09 <= n && n <= 0x0D) || n == 0x20 || n == 0x85 || n == 0xA0 || n == 0x1680 || (0x2000 <= n
        && n <= 0x200A) || n == 0x2028 || n == 0x2029 || n == 0x202F || n == 0x205F || n == 0x3000
}

/// Computes [`ascii_fold`].
pub fn fold_ascii(c: char) -> (n: u32)
    ensures
        n == ascii_fold(c),
{
    let n: u32 = c as u32;
    if 0x41 <= n && n <= 0x5A {
        n + 0x20
    } else {
        n
    }
}

/// The characters of `s`, in order.
pub fn chars_of(s: &str) -> (v: Vec<char>)
    ensures
        v@ == s@,
{
    broadcast use vstd::string::group_string_axioms;

    let mut v: Vec<char> = Vec::new();
    let mut it = s.chars();
    loop
        invariant
            v@ + it.remaining() == s@,
        ensures
            v@ == s@,
        decreases s@.len() - v@.len(),
    {
        match it.next() {
            Some(c) => {
                v.push(c);
            },
            None => {
                break ;
            },
        }
    }
    v
}

/// The index at which `v[from..to]` is past its leading whitespace.
pub(crate) fn skip_spaces(v: &Vec<char>, from: usize, to: usize) -> (a: usize)
    requires
        from <= to <= v.len(),
    ensures
        from <= a <= to,
        v@.subrange(a as int, to as int) == trim_start(v@.subrange(from as int, to as int)),
{
    let mut a: usize = from;
    while a < to && is_whitespace(v[a])
        invariant
            from <= a <= to <= v.len(),
            trim_start(v@.subrange(a as int, to as int)) == trim_start(
                v@.subrange(from as int, to as int),
            ),
        decreases to - a,
    {
        proof {
            assert(v@.subrange(a as int, to as int).drop_first() =~= v@.subrange(
                a + 1,
                to as int,
            ));
        }
        a += 1;
    }
    a
}

/// The index at which the word that `v[from..to]` begins with ends.
pub(crate) fn word_end(v: &Vec<char>, from: usize, to: usize) -> (b: usize)
    requires
        from <= to <= v.len(),
    ensures
        from <= b <= to,
        b - from == word_length(v@.subrange(from as int, to as int)),
{
    let mut b: usize = from;
    while b < to && !is_whitespace(v[b])
        invariant
            from <= b <= to <= v.len(),
            word_length(v@.subrange(from as int, to as int)) == (b - from) + word_length(
                v@.subrange(b as int, to as int),
            ),
        decreases to - b,
    {
        proof {
            assert(v@.subrange(b as int, to as int).drop_first() =~= v@.subrange(
                b + 1,
                to as int,
            ));
        }
        b += 1;
    }
    b
}

/// The bounds of `v[from..to]` once its leading and trailing whitespace is left out.
pub(crate) fn trim_range(v: &Vec<char>, from: usize, to: usize) -> (r: (usize, usize))
    requires
        from <= to <= v.len(),
    ensures
        from <= r.0 <= r.1 <= to,
        v@.subrange(r.0 as int, r.1 as int) == trim(v@.subrange(from as int, to as int)),
{
    let a = skip_spaces(v, from, to);
    let mut b: usize = to;
    while a < b && is_whitespace(v[b - 1])
        invariant
            a <= b <= to <= v.len(),
            trim_end(v@.subrange(a as int, b as int)) == trim_end(v@.subrange(a as int, to as int)),
        decreases b - a,
    {
        proof {
            assert(v@.subrange(a as int, b as int).drop_last() =~= v@.subrange(a as int, b - 1));
        }
        b -= 1;
    }
    (a, b)
}

/// The index of the first `c` in `v[from..to]`, or `to` where that stretch holds none.
pub(crate) fn find_in_range(v: &Vec<char>, from: usize, to: usize, c: char) -> (r: usize)
    requires
        from <= to <= v.len(),
    ensures
        from <= r <= to,
        r - from == offset_of(v@.subrange(from as int, to as int), c),
{
    let mut i: usize = from;
    while i < to && v[i] != c
        invariant
            from <= i <= to <= v.len(),
            offset_of(v@.subrange(from as int, to as int), c) == (i - from) + offset_of(
                v@.subrange(i as int, to as int),
                c,
            ),
        decreases to - i,
    {
        proof {
            assert(v@.subrange(i as int, to as int).drop_first() =~= v@.subrange(
                i + 1,
                to as int,
            ));
        }
        i += 1;
    }
    i
}

/// Whether `v[from..to]` spells `word`.
pub(crate) fn range_is(v: &Vec<char>, from: usize, to: usize, word: &Vec<char>) -> (b: bool)
    requires
        from <= to <= v.len(),
    ensures
        b == (v@.subrange(from as int, to as int) == word@),
{
    if to - from != word.len() {
        return false;
    }
    let mut i: usize = 0;
    while i < word.len()
        invariant
            from <= to <= v.len(),
            to - from == word.len(),
            i <= word.len(),
            forall|j: int| 0 <= j < i ==> v@[from + j] == word@[j],
        decreases word.len() - i,
    {
        if v[from + i] != word[i] {
            return false;
        }
        i += 1;
    }
    proof {
        assert(v@.subrange(from as int, to as int) =~= word@);
    }
    true
}

/// Whether `v[from..to]` spells `word` up to the case of ASCII letters.
pub(crate) fn range_is_ignore_ascii_case(
    v: &Vec<char>,
    from: usize,
    to: usize,
    word: &Vec<char>,
) -> (b: bool)
    requires
        from <= to <= v.len(),
    ensures
        b == eq_ignore_ascii_case(v@.subrange(from as int, to as int), word@),
{
    if to - from != word.len() {
        return false;
    }
    let ghost part = v@.subrange(from as int, to as int);
    let mut i: usize = 0;
    while i < word.len()
        invariant
            from <= to <= v.len(),
            to - from == word.len(),
            i <= word.len(),
            part == v@.subrange(from as int, to as int),
            forall|j: int| 0 <= j < i ==> ascii_fold(#[trigger] part[j]) == ascii_fold(word@[j]),
        decreases word.len() - i,
    {
        if fold_ascii(v[from + i]) != fold_ascii(word[i]) {
            proof {
                assert(ascii_fold(part[i as int]) != ascii_fold(word@[i as int]));
            }
            return false;
        }
        i += 1;
    }
    true
}

/// Decides [`contains`] by trying every offset in turn.
pub fn contains_chars(hay: &Vec<char>, needle: &Vec<char>) -> (b: bool)
    ensures
        b == contains(hay@, needle@),
{
    if needle.len() > hay.len() {
        return false;
    }
    let last: usize = hay.len() - needle.len();
    let mut i: usize = 0;
    loop
        invariant
            needle.len() <= hay.len(),
            last == hay.len() - needle.len(),
            i <= last,
            forall|j: int| 0 <= j < i ==> !occurs_at(hay@, needle@, j),
        decreases last - i,
    {
        if range_is(hay, i, i + needle.len(), needle) {
            proof {
                assert(occurs_at(hay@, needle@, i as int));
            }
            return true;
        }
        if i == last {
            return false;
        }
        i += 1;
    }
}

} // verus!
