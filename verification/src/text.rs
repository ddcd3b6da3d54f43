//! Character-level helpers shared by the tokenizer and the field accessors.
//!
//! Text is modelled as `Seq<char>`. Executable code works on a `Vec<char>`
//! copy of the input so that every position is a character index.

use vstd::prelude::*;

verus! {

/// `String::push` appends exactly one character to the end of the string.
pub assume_specification[ String::push ](s: &mut String, ch: char)
    ensures
        final(s)@ == old(s)@.push(ch),
;

/// `String::pop` removes the last character and returns it, or returns
/// `None` and leaves the string alone when it is empty.
pub assume_specification[ String::pop ](s: &mut String) -> (r: Option<char>)
    ensures
        old(s)@.len() == 0 ==> r is None && final(s)@ == old(s)@,
        old(s)@.len() > 0 ==> r == Some(old(s)@.last()) && final(s)@ == old(s)@.drop_last(),
;

/// A set of characters that a scan runs over.
#[derive(Clone, Copy, Debug, PartialEq, Eq, Structural)]
pub enum CharClass {
    /// Space and tab.
    Blank,
    /// Everything but line feed and carriage return.
    NotNewline,
    /// Everything but the given character.
    Except(char),
}

/// Line feed or carriage return.
pub open spec fn is_newline(c: char) -> bool {
    c == '\n' || c == '\r'
}

/// Space or tab.
pub open spec fn is_blank(c: char) -> bool {
    c == ' ' || c == '\t'
}

impl CharClass {
    /// Whether `c` belongs to the class.
    pub open spec fn holds(self, c: char) -> bool {
        match self {
            CharClass::Blank => is_blank(c),
            CharClass::NotNewline => !is_newline(c),
            CharClass::Except(x) => c != x,
        }
    }

    /// Executable membership test.
    pub fn test(self, c: char) -> (r: bool)
        ensures
            r == self.holds(c),
    {
        match self {
            CharClass::Blank => c == ' ' || c == '\t',
            CharClass::NotNewline => !(c == '\n' || c == '\r'),
            CharClass::Except(x) => c != x,
        }
    }
}

/// The end of the longest run of `class` characters that starts at `i`:
/// the first position at or after `i` that is past the end of `s` or holds a
/// character outside the class.
pub open spec fn scan(s: Seq<char>, i: int, class: CharClass) -> int
    decreases s.len() - i,
{
    if 0 <= i < s.len() && class.holds(s[i]) {
        scan(s, i + 1, class)
    } else {
        i
    }
}

/// `r` ends the run of `class` characters of `s` that starts at `i`.
pub open spec fn ends_run(s: Seq<char>, i: int, class: CharClass, r: int) -> bool {
    &&& i <= r <= s.len()
    &&& forall|j: int| i <= j < r ==> class.holds(#[trigger] s[j])
    &&& r < s.len() ==> !class.holds(s[r])
}

/// `scan` returns the end of the run, and nothing else is one.
pub proof fn lemma_scan(s: Seq<char>, i: int, class: CharClass, r: int)
    requires
        0 <= i <= s.len(),
    ensures
        ends_run(s, i, class, scan(s, i, class)),
        ends_run(s, i, class, r) ==> r == scan(s, i, class),
    decreases s.len() - i,
{
    if i < s.len() && class.holds(s[i]) {
        lemma_scan(s, i + 1, class, r);
        let e = scan(s, i + 1, class);
        assert forall|j: int| i <= j < e implies class.holds(#[trigger] s[j]) by {
            if j > i {
                assert(i + 1 <= j < e);
            }
        }
        if ends_run(s, i, class, r) {
            if r == i {
                assert(!class.holds(s[r]));
            }
            assert(ends_run(s, i + 1, class, r));
        }
    } else {
        if ends_run(s, i, class, r) && r > i {
            assert(class.holds(s[i]));
        }
    }
}

/// The characters of a sequence of strings.
pub open spec fn string_views(v: Seq<String>) -> Seq<Seq<char>> {
    v.map_values(|s: String| s@)
}

/// The characters of an optional string.
pub open spec fn option_view(s: Option<String>) -> Option<Seq<char>> {
    match s {
        Some(s) => Some(s@),
        None => None,
    }
}

/// The characters of `s`, in order.
pub fn chars_of(s: &str) -> (v: Vec<char>)
    ensures
        v@ == s@,
{
    let mut v: Vec<char> = Vec::new();
    for c in it: s.chars()
        invariant
            v@ == it.seq().subrange(0, it.index() as int),
    {
        v.push(c);
    }
    v
}

/// The string made of `v[from..to]`.
pub(crate) fn string_of(v: &Vec<char>, from: usize, to: usize) -> (s: String)
    requires
        from <= to <= v.len(),
    ensures
        s@ == v@.subrange(from as int, to as int),
{
    let mut s = String::new();
    let mut i: usize = from;
    while i < to
        invariant
            from <= i <= to <= v.len(),
            s@ == v@.subrange(from as int, i as int),
        decreases to - i,
    {
        s.push(v[i]);
        i += 1;
    }
    s
}

/// What `scan_while` finds in the window `s[base..to]`, seen from inside
/// the window.
pub proof fn lemma_scan_window(
    s: Seq<char>,
    base: int,
    to: int,
    from: int,
    class: CharClass,
    r: int,
)
    requires
        0 <= base <= from <= r <= to <= s.len(),
        forall|j: int| from <= j < r ==> class.holds(#[trigger] s[j]),
        r < to ==> !class.holds(s[r]),
    ensures
        scan(s.subrange(base, to), from - base, class) == r - base,
{
    let l = s.subrange(base, to);
    assert forall|j: int| from - base <= j < r - base implies class.holds(#[trigger] l[j]) by {
        assert(l[j] == s[base + j]);
    }
    lemma_scan(l, from - base, class, r - base);
}

/// Runs over `v[from..to]` while the characters belong to `class` and returns
/// where the run ends.
pub(crate) fn scan_while(v: &Vec<char>, from: usize, to: usize, class: CharClass) -> (r: usize)
    requires
        from <= to <= v.len(),
    ensures
        from <= r <= to,
        forall|j: int| from <= j < r ==> class.holds(#[trigger] v@[j]),
        r < to ==> !class.holds(v@[r as int]),
{
    let mut i: usize = from;
    while i < to && class.test(v[i])
        invariant
            from <= i <= to <= v.len(),
            forall|j: int| from <= j < i ==> class.holds(#[trigger] v@[j]),
        decreases to - i,
    {
        i += 1;
    }
    i
}

/// Whether `needle` stands in `hay` at position `i`.
pub open spec fn occurs_at(hay: Seq<char>, needle: Seq<char>, i: int) -> bool {
    &&& 0 <= i
    &&& i + needle.len() <= hay.len()
    &&& hay.subrange(i, i + needle.len()) == needle
}

/// Whether `s` begins with `prefix`.
pub open spec fn starts_with(s: Seq<char>, prefix: Seq<char>) -> bool {
    occurs_at(s, prefix, 0)
}

/// The first position at or after `from` at which `needle` stands in `hay`.
pub open spec fn find_from(hay: Seq<char>, needle: Seq<char>, from: int) -> Option<int>
    decreases hay.len() + 1 - from,
{
    if from < 0 || from + needle.len() > hay.len() {
        None
    } else if occurs_at(hay, needle, from) {
        Some(from)
    } else {
        find_from(hay, needle, from + 1)
    }
}

/// The first position at which `needle` stands in `hay`.
pub open spec fn find(hay: Seq<char>, needle: Seq<char>) -> Option<int> {
    find_from(hay, needle, 0)
}

/// What `find_from` returns is an occurrence and the first one from `from`
/// on; where it returns nothing there is none.
pub proof fn lemma_find_from(hay: Seq<char>, needle: Seq<char>, from: int)
    requires
        0 <= from,
    ensures
        match find_from(hay, needle, from) {
            Some(i) => from <= i && occurs_at(hay, needle, i) && forall|j: int|
                from <= j < i ==> !occurs_at(hay, needle, j),
            None => forall|j: int| from <= j ==> !occurs_at(hay, needle, j),
        },
    decreases hay.len() + 1 - from,
{
    if from + needle.len() <= hay.len() && !occurs_at(hay, needle, from) {
        lemma_find_from(hay, needle, from + 1);
    }
}

/// `find` returns the first occurrence of `needle` in `hay`, and nothing
/// exactly where `needle` occurs nowhere.
pub proof fn law_find_first_occurrence(hay: Seq<char>, needle: Seq<char>)
    ensures
        match find(hay, needle) {
            Some(i) => occurs_at(hay, needle, i) && forall|j: int|
                j < i ==> !occurs_at(hay, needle, j),
            None => forall|j: int| !occurs_at(hay, needle, j),
        },
{
    lemma_find_from(hay, needle, 0);
}

/// Whether `v[from..to]` and `w` hold the same characters.
pub(crate) fn range_eq(v: &Vec<char>, from: usize, to: usize, w: &Vec<char>) -> (r: bool)
    requires
        from <= to <= v.len(),
    ensures
        r == (v@.subrange(from as int, to as int) == w@),
{
    if to - from != w.len() {
        return false;
    }
    let ghost part = v@.subrange(from as int, to as int);
    let mut k: usize = 0;
    while k < w.len()
        invariant
            from <= to <= v.len(),
            to - from == w.len(),
            k <= w.len(),
            part == v@.subrange(from as int, to as int),
            forall|j: int| 0 <= j < k ==> part[j] == w@[j],
        decreases w.len() - k,
    {
        if v[from + k] != w[k] {
            assert(part[k as int] != w@[k as int]);
            return false;
        }
        k += 1;
    }
    assert(part =~= w@);
    true
}

/// Whether `a` and `b` hold the same characters.
pub fn same_text(a: &str, b: &str) -> (r: bool)
    ensures
        r == (a@ == b@),
{
    let x = chars_of(a);
    let y = chars_of(b);
    assert(x@.subrange(0, x.len() as int) =~= x@);
    range_eq(&x, 0, x.len(), &y)
}

/// Whether `needle` stands in `hay` at position `i`.
pub fn matches_at(hay: &Vec<char>, needle: &Vec<char>, i: usize) -> (r: bool)
    ensures
        r == occurs_at(hay@, needle@, i as int),
{
    if needle.len() > hay.len() || i > hay.len() - needle.len() {
        return false;
    }
    range_eq(hay, i, i + needle.len(), needle)
}

/// The first position at which `needle` stands in `hay`.
pub fn find_in(hay: &Vec<char>, needle: &Vec<char>) -> (r: Option<usize>)
    ensures
        match r {
            Some(i) => find(hay@, needle@) == Some(i as int) && i + needle.len() <= hay.len(),
            None => find(hay@, needle@) is None,
        },
{
    if needle.len() > hay.len() {
        return None;
    }
    let last = hay.len() - needle.len();
    let mut i: usize = 0;
    loop
        invariant
            last == hay.len() - needle.len(),
            i <= last,
            find(hay@, needle@) == find_from(hay@, needle@, i as int),
        decreases last - i,
    {
        if matches_at(hay, needle, i) {
            return Some(i);
        }
        if i == last {
            assert(find_from(hay@, needle@, i + 1) is None);
            return None;
        }
        i += 1;
    }
}

/// Whether a character is white space in the sense of
/// `char::is_whitespace`.
pub uninterp spec fn is_white_space(c: char) -> bool;

/// `char::is_whitespace` depends on the character alone.
pub assume_specification[ char::is_whitespace ](c: char) -> (r: bool)
    ensures
        r == is_white_space(c),
;

/// `s` in lower case, as `str::to_lowercase` writes it.
pub uninterp spec fn lowercase(s: Seq<char>) -> Seq<char>;

/// `str::to_lowercase` depends on the characters of the text alone.
pub assume_specification[ str::to_lowercase ](s: &str) -> (r: String)
    ensures
        r@ == lowercase(s@),
;

/// `s` without the white space at its start.
pub open spec fn trim_start(s: Seq<char>) -> Seq<char>
    decreases s.len(),
{
    if s.len() > 0 && is_white_space(s[0]) {
        trim_start(s.drop_first())
    } else {
        s
    }
}

/// `s` without the white space at its end.
pub open spec fn trim_end(s: Seq<char>) -> Seq<char>
    decreases s.len(),
{
    if s.len() > 0 && is_white_space(s.last()) {
        trim_end(s.drop_last())
    } else {
        s
    }
}

/// `s` without the white space at its start and at its end.
pub open spec fn trim(s: Seq<char>) -> Seq<char> {
    trim_end(trim_start(s))
}

/// The bounds of `v[from..to]` once the white space at its start and at its
/// end is taken away.
pub(crate) fn trim_bounds(v: &Vec<char>, from: usize, to: usize) -> (r: (usize, usize))
    requires
        from <= to <= v.len(),
    ensures
        from <= r.0 <= r.1 <= to,
        v@.subrange(r.0 as int, r.1 as int) == trim(v@.subrange(from as int, to as int)),
{
    let ghost whole = v@.subrange(from as int, to as int);
    let mut a: usize = from;
    while a < to && v[a].is_whitespace()
        invariant
            from <= a <= to <= v.len(),
            trim_start(whole) == trim_start(v@.subrange(a as int, to as int)),
        decreases to - a,
    {
        proof {
            let part = v@.subrange(a as int, to as int);
            assert(part[0] == v@[a as int]);
            assert(part.drop_first() =~= v@.subrange(a + 1, to as int));
        }
        a += 1;
    }
    proof {
        let part = v@.subrange(a as int, to as int);
        if a < to {
            assert(part[0] == v@[a as int]);
        }
        assert(trim_start(whole) == part);
    }
    let mut b: usize = to;
    while a < b && v[b - 1].is_whitespace()
        invariant
            a <= b <= to <= v.len(),
            trim(whole) == trim_end(v@.subrange(a as int, b as int)),
        decreases b,
    {
        proof {
            let part = v@.subrange(a as int, b as int);
            assert(part.last() == v@[b - 1]);
            assert(part.drop_last() =~= v@.subrange(a as int, b - 1));
        }
        b -= 1;
    }
    proof {
        let part = v@.subrange(a as int, b as int);
        if a < b {
            assert(part.last() == v@[b - 1]);
        }
    }
    (a, b)
}

/// The first line of `s`: what stands before its first line feed.
pub open spec fn first_line(s: Seq<char>) -> Seq<char> {
    s.take(scan(s, 0, CharClass::Except('\n')))
}

/// What follows the first line feed of `s`; nothing where `s` has none.
pub open spec fn after_first_line(s: Seq<char>) -> Seq<char> {
    let e = scan(s, 0, CharClass::Except('\n'));
    if 0 <= e < s.len() {
        s.skip(e + 1)
    } else {
        Seq::empty()
    }
}

/// The pieces of `s` between the occurrences of `sep`. There is one piece
/// more than there are separators, so the empty text has one empty piece.
pub open spec fn split(s: Seq<char>, sep: char) -> Seq<Seq<char>>
    decreases s.len(),
{
    let e = scan(s, 0, CharClass::Except(sep));
    if 0 <= e < s.len() {
        seq![s.take(e)] + split(s.skip(e + 1), sep)
    } else {
        seq![s]
    }
}

/// The texts that the ranges `bounds` cut out of `s`.
pub open spec fn cut(s: Seq<char>, bounds: Seq<(usize, usize)>) -> Seq<Seq<char>> {
    bounds.map_values(|b: (usize, usize)| s.subrange(b.0 as int, b.1 as int))
}

/// The bounds of the pieces of `v` between the occurrences of `sep`.
pub fn split_bounds(v: &Vec<char>, sep: char) -> (r: Vec<(usize, usize)>)
    ensures
        cut(v@, r@) == split(v@, sep),
        forall|k: int| 0 <= k < r.len() ==> (#[trigger] r[k]).0 <= r[k].1 <= v.len(),
{
    let n = v.len();
    let mut out: Vec<(usize, usize)> = Vec::new();
    let mut i: usize = 0;
    assert(v@.skip(0) =~= v@);
    assert(cut(v@, out@) =~= Seq::empty());
    loop
        invariant_except_break
            split(v@, sep) == cut(v@, out@) + split(v@.skip(i as int), sep),
        invariant
            n == v.len(),
            i <= n,
            forall|k: int| 0 <= k < out.len() ==> (#[trigger] out[k]).0 <= out[k].1 <= n,
        ensures
            split(v@, sep) == cut(v@, out@),
        decreases n - i,
    {
        let ghost rest = v@.skip(i as int);
        let ghost done = cut(v@, out@);
        let e = scan_while(v, i, n, CharClass::Except(sep));
        proof {
            lemma_scan_window(v@, i as int, n as int, i as int, CharClass::Except(sep), e as int);
            assert(v@.subrange(i as int, n as int) =~= rest);
        }
        out.push((i, e));
        if e == n {
            assert(v@.subrange(i as int, e as int) =~= rest);
            assert(cut(v@, out@) =~= done + seq![rest]);
            break ;
        }
        proof {
            assert(rest.take(e - i) =~= v@.subrange(i as int, e as int));
            assert(rest.skip(e - i + 1) =~= v@.skip(e + 1));
            assert(cut(v@, out@) + split(v@.skip(e + 1), sep) =~= done + split(rest, sep));
        }
        i = e + 1;
    }
    out
}

} // verus!
