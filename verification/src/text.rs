//! Characters and lines: the lexical ground the configuration format stands on.
//!
//! Text is modelled as `Seq<char>`. Executable code walks a `Vec<char>` by index
//! ranges and cuts owned strings out of it only where a value is kept.

use vstd::prelude::*;

verus! {

/// `String::push` puts the character at the end of the string and leaves
/// the rest as it was.
pub assume_specification[ String::push ](s: &mut String, ch: char)
    ensures
        final(s)@ == old(s)@.push(ch),
;

/// Whether `c` carries the Unicode property White_Space.
pub open spec fn is_whitespace(c: char) -> bool {
    ||| '\u{9}' <= c <= '\u{D}'
    ||| c == ' '
    ||| c == '\u{85}'
    ||| c == '\u{A0}'
    ||| c == '\u{1680}'
    ||| '\u{2000}' <= c <= '\u{200A}'
    ||| c == '\u{2028}'
    ||| c == '\u{2029}'
    ||| c == '\u{202F}'
    ||| c == '\u{205F}'
    ||| c == '\u{3000}'
}

/// The lowercase form of `c`, as far as it can reach an ASCII letter: the
/// letters `A` to `Z`, and the Kelvin sign, whose lowercase form is `k`.
/// Every other character stands for itself.
pub open spec fn lower(c: char) -> char {
    if 'A' <= c <= 'Z' {
        ((c as u8) + 32) as char
    } else if c == '\u{212A}' {
        'k'
    } else {
        c
    }
}

/// `s` with every character replaced by its lowercase form.
pub open spec fn lowered(s: Seq<char>) -> Seq<char> {
    s.map_values(|c: char| lower(c))
}

/// Index of the first `x` in `s`; `s.len()` where `s` holds none.
pub open spec fn find<T>(s: Seq<T>, x: T) -> int
    decreases s.len(),
{
    if s.len() == 0 || s[0] == x {
        0
    } else {
        1 + find(s.drop_first(), x)
    }
}

/// `s` without its leading whitespace.
pub open spec fn trim_start(s: Seq<char>) -> Seq<char>
    decreases s.len(),
{
    if s.len() > 0 && is_whitespace(s[0]) {
        trim_start(s.drop_first())
    } else {
        s
    }
}

/// `s` without its trailing whitespace.
pub open spec fn trim_end(s: Seq<char>) -> Seq<char>
    decreases s.len(),
{
    if s.len() > 0 && is_whitespace(s.last()) {
        trim_end(s.drop_last())
    } else {
        s
    }
}

/// `s` without the whitespace that surrounds it.
pub open spec fn trim(s: Seq<char>) -> Seq<char> {
    trim_end(trim_start(s))
}

/// The lines of `s`: the pieces between its line feeds, without them. A text
/// of `n` line feeds has `n + 1` lines; the last one is empty where the text
/// ends in a line feed.
pub open spec fn split_lines(s: Seq<char>) -> Seq<Seq<char>>
    decreases s.len(),
{
    let n = find(s, '\n');
    if 0 <= n < s.len() {
        seq![s.take(n)] + split_lines(s.skip(n + 1))
    } else {
        seq![s]
    }
}

/// `find` returns the least index that holds `x`.
pub proof fn lemma_find<T>(s: Seq<T>, x: T)
    ensures
        0 <= find(s, x) <= s.len(),
        forall|j: int| 0 <= j < find(s, x) ==> s[j] != x,
        find(s, x) < s.len() ==> s[find(s, x)] == x,
    decreases s.len(),
{
    if s.len() == 0 || s[0] == x {
    } else {
        lemma_find(s.drop_first(), x);
        assert forall|j: int| 0 <= j < find(s, x) implies s[j] != x by {
            if j > 0 {
                assert(s[j] == s.drop_first()[j - 1]);
            }
        }
    }
}

/// The least index that holds `x` is what `find` returns.
pub proof fn lemma_find_unique<T>(s: Seq<T>, x: T, i: int)
    requires
        0 <= i <= s.len(),
        forall|j: int| 0 <= j < i ==> s[j] != x,
        i < s.len() ==> s[i] == x,
    ensures
        find(s, x) == i,
    decreases s.len(),
{
    if s.len() == 0 || s[0] == x {
    } else {
        let t = s.drop_first();
        assert forall|j: int| 0 <= j < i - 1 implies t[j] != x by {
            assert(t[j] == s[j + 1]);
        }
        lemma_find_unique(t, x, i - 1);
    }
}

/// What `trim_start` takes off is whitespace, and what it leaves does not
/// begin with any.
pub proof fn lemma_trim_start(s: Seq<char>) -> (a: int)
    ensures
        0 <= a <= s.len(),
        trim_start(s) == s.skip(a),
        forall|j: int| 0 <= j < a ==> is_whitespace(s[j]),
        a < s.len() ==> !is_whitespace(s[a]),
    decreases s.len(),
{
    if s.len() > 0 && is_whitespace(s[0]) {
        let t = s.drop_first();
        let k = lemma_trim_start(t);
        assert(t.skip(k) == s.skip(k + 1));
        assert forall|j: int| 0 <= j < k + 1 implies is_whitespace(s[j]) by {
            if j > 0 {
                assert(s[j] == t[j - 1]);
            }
        }
        if k < t.len() {
            assert(t[k] == s[k + 1]);
        }
        k + 1
    } else {
        assert(s.skip(0) == s);
        0
    }
}

/// What `trim_end` takes off is whitespace, and what it leaves does not end
/// with any.
pub proof fn lemma_trim_end(s: Seq<char>) -> (b: int)
    ensures
        0 <= b <= s.len(),
        trim_end(s) == s.take(b),
        forall|j: int| b <= j < s.len() ==> is_whitespace(s[j]),
        b > 0 ==> !is_whitespace(s[b - 1]),
    decreases s.len(),
{
    if s.len() > 0 && is_whitespace(s.last()) {
        let t = s.drop_last();
        let k = lemma_trim_end(t);
        assert(t.take(k) == s.take(k));
        assert forall|j: int| k <= j < s.len() implies is_whitespace(s[j]) by {
            if j < t.len() {
                assert(s[j] == t[j]);
            }
        }
        if k > 0 {
            assert(t[k - 1] == s[k - 1]);
        }
        k
    } else {
        assert(s.take(s.len() as int) == s);
        s.len() as int
    }
}

/// `trim` cuts out the piece of `s` between its first and its last character
/// that is no whitespace: all that it takes off is whitespace, and what it
/// leaves neither begins nor ends with any.
pub proof fn lemma_trim(s: Seq<char>) -> (r: (int, int))
    ensures
        0 <= r.0 <= r.1 <= s.len(),
        trim(s) == s.subrange(r.0, r.1),
        forall|j: int| 0 <= j < r.0 || r.1 <= j < s.len() ==> is_whitespace(s[j]),
        r.0 < r.1 ==> !is_whitespace(s[r.0]) && !is_whitespace(s[r.1 - 1]),
{
    let a = lemma_trim_start(s);
    let t = s.skip(a);
    let k = lemma_trim_end(t);
    assert(t.take(k) == s.subrange(a, a + k));
    assert forall|j: int| a + k <= j < s.len() implies is_whitespace(s[j]) by {
        assert(s[j] == t[j - a]);
    }
    if k > 0 {
        assert(t[k - 1] == s[a + k - 1]);
        assert(t[0] == s[a]);
    }
    (a, a + k)
}

/// The lines `lines` put together again, with a line feed between each two.
pub open spec fn join_lines(lines: Seq<Seq<char>>) -> Seq<char>
    decreases lines.len(),
{
    if lines.len() == 0 {
        Seq::empty()
    } else if lines.len() == 1 {
        lines[0]
    } else {
        lines[0] + seq!['\n'] + join_lines(lines.drop_first())
    }
}

/// Splitting loses nothing: a text has at least one line, no line holds a
/// line feed, and the lines put together again are the text.
pub proof fn lemma_split_lines(s: Seq<char>)
    ensures
        split_lines(s).len() >= 1,
        forall|i: int, j: int|
            0 <= i < split_lines(s).len() && 0 <= j < split_lines(s)[i].len() ==> split_lines(
                s,
            )[i][j] != '\n',
        join_lines(split_lines(s)) == s,
    decreases s.len(),
{
    let n = find(s, '\n');
    lemma_find(s, '\n');
    let lines = split_lines(s);
    if n < s.len() {
        let rest = s.skip(n + 1);
        let more = split_lines(rest);
        lemma_split_lines(rest);
        assert(lines.drop_first() == more);
        assert(lines[0] == s.take(n));
        assert(s == s.take(n) + seq!['\n'] + rest);
        assert forall|i: int, j: int| 0 <= i < lines.len() && 0 <= j < lines[i].len() implies lines[i][j]
            != '\n' by {
            if i > 0 {
                assert(lines[i] == more[i - 1]);
            }
        }
    }
}

pub fn char_is_whitespace(c: char) -> (b: bool)
    ensures
        b == is_whitespace(c),
{
    ('\u{9}' <= c && c <= '\u{D}') || c == ' ' || c == '\u{85}' || c == '\u{A0}' || c
        == '\u{1680}' || ('\u{2000}' <= c && c <= '\u{200A}') || c == '\u{2028}' || c == '\u{2029}'
        || c == '\u{202F}' || c == '\u{205F}' || c == '\u{3000}'
}

pub fn lower_char(c: char) -> (r: char)
    ensures
        r == lower(c),
{
    if 'A' <= c && c <= 'Z' {
        ((c as u8) + 32) as char
    } else if c == '\u{212A}' {
        'k'
    } else {
        c
    }
}

/// The characters of `s`, in order.
pub fn chars_of(s: &str) -> (v: Vec<char>)
    ensures
        v@ == s@,
{
    let mut v: Vec<char> = Vec::new();
    for c in it: s.chars()
        invariant
            it.seq() == s@,
            v@ == s@.take(it.index() as int),
    {
        v.push(c);
    }
    v
}

/// The string made of `chars[lo..hi]`.
pub fn string_of(chars: &Vec<char>, lo: usize, hi: usize) -> (s: String)
    requires
        lo <= hi <= chars.len(),
    ensures
        s@ == chars@.subrange(lo as int, hi as int),
{
    let mut s = String::new();
    let mut i: usize = lo;
    while i < hi
        invariant
            lo <= i <= hi <= chars.len(),
            s@ == chars@.subrange(lo as int, i as int),
        decreases hi - i,
    {
        s.push(chars[i]);
        i += 1;
    }
    s
}

/// `s` in lowercase.
pub fn lowercase(s: &str) -> (r: String)
    ensures
        r@ == lowered(s@),
{
    let chars = chars_of(s);
    let mut r = String::new();
    let mut i: usize = 0;
    while i < chars.len()
        invariant
            i <= chars.len(),
            chars@ == s@,
            r@ == lowered(s@.take(i as int)),
        decreases chars.len() - i,
    {
        r.push(lower_char(chars[i]));
        i += 1;
    }
    r
}

/// Whether two texts hold the same characters.
pub fn same_text(a: &str, b: &str) -> (r: bool)
    ensures
        r == (a@ == b@),
{
    let x = a.to_owned();
    let y = b.to_owned();
    x == y
}

/// Where the first `c` of `chars[lo..hi]` stands; `hi` where there is none.
pub fn find_in(chars: &Vec<char>, lo: usize, hi: usize, c: char) -> (at: usize)
    requires
        lo <= hi <= chars.len(),
    ensures
        lo <= at <= hi,
        at == lo + find(chars@.subrange(lo as int, hi as int), c),
{
    let mut i: usize = lo;
    while i < hi && chars[i] != c
        invariant
            lo <= i <= hi <= chars.len(),
            forall|j: int| lo <= j < i ==> chars@[j] != c,
        decreases hi - i,
    {
        i += 1;
    }
    proof {
        lemma_find_unique(chars@.subrange(lo as int, hi as int), c, i - lo);
    }
    i
}

/// The range of `chars[lo..hi]` that is left when the surrounding whitespace
/// is taken off.
pub fn trim_in(chars: &Vec<char>, lo: usize, hi: usize) -> (r: (usize, usize))
    requires
        lo <= hi <= chars.len(),
    ensures
        lo <= r.0 <= r.1 <= hi,
        chars@.subrange(r.0 as int, r.1 as int) == trim(chars@.subrange(lo as int, hi as int)),
{
    let mut a: usize = lo;
    while a < hi && char_is_whitespace(chars[a])
        invariant
            lo <= a <= hi <= chars.len(),
            trim_start(chars@.subrange(a as int, hi as int)) == trim_start(
                chars@.subrange(lo as int, hi as int),
            ),
        decreases hi - a,
    {
        assert(chars@.subrange(a as int, hi as int).drop_first() == chars@.subrange(
            a + 1,
            hi as int,
        ));
        a += 1;
    }
    let mut b: usize = hi;
    while b > a && char_is_whitespace(chars[b - 1])
        invariant
            a <= b <= hi <= chars.len(),
            trim_end(chars@.subrange(a as int, b as int)) == trim_end(
                chars@.subrange(a as int, hi as int),
            ),
        decreases b - a,
    {
        assert(chars@.subrange(a as int, b as int).drop_last() == chars@.subrange(
            a as int,
            b - 1,
        ));
        b -= 1;
    }
    (a, b)
}

/// The range of every line of `chars`, each without the whitespace that
/// surrounds it.
pub fn line_ranges(chars: &Vec<char>) -> (r: Vec<(usize, usize)>)
    ensures
        r.len() == split_lines(chars@).len(),
        forall|i: int|
            0 <= i < r.len() ==> {
                &&& (#[trigger] r[i]).0 <= r[i].1 <= chars.len()
                &&& chars@.subrange(r[i].0 as int, r[i].1 as int) == trim(split_lines(chars@)[i])
            },
{
    let n = chars.len();
    let mut r: Vec<(usize, usize)> = Vec::new();
    let mut pos: usize = 0;
    let mut open = true;
    let ghost mut done: Seq<Seq<char>> = Seq::empty();
    proof {
        assert(chars@.skip(0) == chars@);
        assert(done + split_lines(chars@) == split_lines(chars@));
    }
    while open
        invariant
            n == chars.len(),
            pos <= n,
            open ==> split_lines(chars@) == done + split_lines(chars@.skip(pos as int)),
            !open ==> split_lines(chars@) == done,
            r.len() == done.len(),
            forall|i: int|
                0 <= i < r.len() ==> {
                    &&& (#[trigger] r[i]).0 <= r[i].1 <= chars.len()
                    &&& chars@.subrange(r[i].0 as int, r[i].1 as int) == trim(done[i])
                },
        decreases n - pos + if open { 1int } else { 0 },
    {
        let end = find_in(chars, pos, n, '\n');
        let range = trim_in(chars, pos, end);
        proof {
            let rest = chars@.skip(pos as int);
            assert(rest == chars@.subrange(pos as int, n as int));
            let line = chars@.subrange(pos as int, end as int);
            if end < n {
                assert(rest.take(end - pos) == line);
                assert(rest.skip(end - pos + 1) == chars@.skip(end + 1));
                assert(done + (seq![line] + split_lines(chars@.skip(end + 1))) == done.push(line)
                    + split_lines(chars@.skip(end + 1)));
            } else {
                assert(line == rest);
                assert(done + seq![line] == done.push(line));
            }
            done = done.push(line);
        }
        r.push(range);
        if end < n {
            pos = end + 1;
        } else {
            open = false;
        }
    }
    r
}

} // verus!
