//! Text primitives over `char` sequences: trimming, splitting, searching and
//! integer conversion, each with an exact contract.

use vstd::prelude::*;
use vstd::string::*;

verus! {

// ---------------------------------------------------------------------------
// Whitespace
// ---------------------------------------------------------------------------

/// The Unicode `White_Space` property.
pub open spec fn is_ws(c: char) -> bool {
    let n = c as u32;
    ||| 0x9 <= n <= 0xD
    ||| n == 0x20
    ||| n == 0x85
    ||| n == 0xA0
    ||| n == 0x1680
    ||| 0x2000 <= n <= 0x200A
    ||| n == 0x2028
    ||| n == 0x2029
    ||| n == 0x202F
    ||| n == 0x205F
    ||| n == 0x3000
}

pub fn is_whitespace(c: char) -> (r: bool)
    ensures
        r == is_ws(c),
{
    let n: u32 = c as u32;
    (0x9 <= n && n <= 0xD) || n == 0x20 || n == 0x85 || n == 0xA0 || n == 0x1680 || (0x2000 <= n
        && n <= 0x200A) || n == 0x2028 || n == 0x2029 || n == 0x202F || n == 0x205F || n == 0x3000
}

/// `s` without its leading whitespace.
pub open spec fn trim_front(s: Seq<char>) -> Seq<char>
    decreases s.len(),
{
    if s.len() > 0 && is_ws(s[0]) {
        trim_front(s.drop_first())
    } else {
        s
    }
}

/// `s` without its trailing whitespace.
pub open spec fn trim_back(s: Seq<char>) -> Seq<char>
    decreases s.len(),
{
    if s.len() > 0 && is_ws(s.last()) {
        trim_back(s.drop_last())
    } else {
        s
    }
}

/// `s` without leading and trailing whitespace.
pub open spec fn trim(s: Seq<char>) -> Seq<char> {
    trim_back(trim_front(s))
}

// ---------------------------------------------------------------------------
// Conversions between strings and character vectors
// ---------------------------------------------------------------------------

/// `String::push` appends one character at the end of the string.
pub assume_specification[ String::push ](s: &mut String, c: char)
    ensures
        final(s)@ == old(s)@.push(c),
;

/// The text of each element.
pub open spec fn views(v: Seq<Vec<char>>) -> Seq<Seq<char>> {
    v.map_values(|x: Vec<char>| x@)
}

/// The text of each string.
pub open spec fn texts(v: Seq<String>) -> Seq<Seq<char>> {
    v.map_values(|x: String| x@)
}

pub proof fn lemma_views_push(v: Seq<Vec<char>>, x: Vec<char>)
    ensures
        views(v.push(x)) == views(v).push(x@),
{
    assert(views(v.push(x)) =~= views(v).push(x@));
}

pub proof fn lemma_texts_push(v: Seq<String>, x: String)
    ensures
        texts(v.push(x)) == texts(v).push(x@),
{
    assert(texts(v.push(x)) =~= texts(v).push(x@));
}

pub fn chars_of(s: &str) -> (r: Vec<char>)
    ensures
        r@ == s@,
{
    let mut out: Vec<char> = Vec::new();
    for c in it: s.chars()
        invariant
            it.seq() == s@,
            out@ == s@.take(it.index()),
    {
        out.push(c);
        assert(s@.take(it.index() + 1) =~= s@.take(it.index()).push(s@[it.index()]));
    }
    assert(s@.take(s@.len() as int) =~= s@);
    out
}

pub fn string_of(v: &Vec<char>) -> (r: String)
    ensures
        r@ == v@,
{
    let mut out = String::new();
    let mut i: usize = 0;
    while i < v.len()
        invariant
            i <= v.len(),
            out@ == v@.take(i as int),
        decreases v.len() - i,
    {
        assert(v@.take(i + 1) =~= v@.take(i as int).push(v@[i as int]));
        out.push(v[i]);
        i += 1;
    }
    assert(v@.take(v@.len() as int) =~= v@);
    out
}

/// The characters `from..to` of `v`.
pub fn piece(v: &Vec<char>, from: usize, to: usize) -> (r: Vec<char>)
    requires
        from <= to <= v.len(),
    ensures
        r@ == v@.subrange(from as int, to as int),
{
    let mut out: Vec<char> = Vec::new();
    let mut i: usize = from;
    while i < to
        invariant
            from <= i <= to <= v.len(),
            out@ == v@.subrange(from as int, i as int),
        decreases to - i,
    {
        assert(v@.subrange(from as int, i + 1) =~= v@.subrange(from as int, i as int).push(
            v@[i as int],
        ));
        out.push(v[i]);
        i += 1;
    }
    out
}

pub fn same_text(a: &str, b: &str) -> (r: bool)
    ensures
        r == (a@ == b@),
{
    a.to_string() == b.to_string()
}

/// Does `v` spell the string `s`?
pub fn spells(v: &Vec<char>, s: &str) -> (r: bool)
    ensures
        r == (v@ == s@),
{
    string_of(v) == s.to_string()
}

/// `a` followed by `b`.
pub fn join(a: &str, b: &str) -> (r: String)
    ensures
        r@ == a@ + b@,
{
    let mut s = a.to_string();
    s.append(b);
    s
}


// ---------------------------------------------------------------------------
// Trimming
// ---------------------------------------------------------------------------

pub proof fn lemma_trim_front_len(s: Seq<char>)
    ensures
        trim_front(s).len() <= s.len(),
        trim_front(s).len() > 0 ==> !is_ws(trim_front(s)[0]),
    decreases s.len(),
{
    if s.len() > 0 && is_ws(s[0]) {
        lemma_trim_front_len(s.drop_first());
    }
}

/// The first position at or after `from` that holds no whitespace.
fn skip_ws(v: &Vec<char>, from: usize) -> (r: usize)
    requires
        from <= v.len(),
    ensures
        from <= r <= v.len(),
        trim_front(v@.skip(from as int)) == v@.skip(r as int),
        r < v.len() ==> !is_ws(v@[r as int]),
{
    let mut i: usize = from;
    while i < v.len() && is_whitespace(v[i])
        invariant
            from <= i <= v.len(),
            trim_front(v@.skip(from as int)) == trim_front(v@.skip(i as int)),
        decreases v.len() - i,
    {
        assert(v@.skip(i as int).drop_first() =~= v@.skip(i + 1));
        assert(v@.skip(i as int)[0] == v@[i as int]);
        i += 1;
    }
    assert(i < v.len() ==> v@.skip(i as int)[0] == v@[i as int]);
    i
}

pub fn trimmed(v: &Vec<char>) -> (r: Vec<char>)
    ensures
        r@ == trim(v@),
{
    let from = skip_ws(v, 0);
    assert(v@.skip(0) =~= v@);
    let mut to: usize = v.len();
    assert(v@.subrange(from as int, to as int) =~= v@.skip(from as int));
    while to > from && is_whitespace(v[to - 1])
        invariant
            from <= to <= v.len(),
            trim(v@) == trim_back(v@.subrange(from as int, to as int)),
        decreases to,
    {
        let ghost t = v@.subrange(from as int, to as int);
        assert(t.last() == v@[to - 1]);
        assert(t.drop_last() =~= v@.subrange(from as int, to - 1));
        to -= 1;
    }
    assert(to > from ==> v@.subrange(from as int, to as int).last() == v@[to - 1]);
    piece(v, from, to)
}

// ---------------------------------------------------------------------------
// Searching
// ---------------------------------------------------------------------------

/// The position of the first `c` in `s`, or the length of `s` when there is none.
pub open spec fn index_of(s: Seq<char>, c: char) -> int
    decreases s.len(),
{
    if s.len() == 0 || s[0] == c {
        0
    } else {
        1 + index_of(s.drop_first(), c)
    }
}

/// The position of the first whitespace in `s`, or the length of `s`.
pub open spec fn word_end(s: Seq<char>) -> int
    decreases s.len(),
{
    if s.len() == 0 || is_ws(s[0]) {
        0
    } else {
        1 + word_end(s.drop_first())
    }
}

/// The position of the first space or tab in `s`, or the length of `s`.
pub open spec fn blank_at(s: Seq<char>) -> int
    decreases s.len(),
{
    if s.len() == 0 || s[0] == ' ' || s[0] == '\t' {
        0
    } else {
        1 + blank_at(s.drop_first())
    }
}

/// `index_of` is the least position of the character.
pub proof fn lemma_index_of(s: Seq<char>, c: char)
    ensures
        0 <= index_of(s, c) <= s.len(),
        index_of(s, c) < s.len() ==> s[index_of(s, c)] == c,
        forall|i: int| 0 <= i < index_of(s, c) ==> s[i] != c,
    decreases s.len(),
{
    if s.len() != 0 && s[0] != c {
        let t = s.drop_first();
        lemma_index_of(t, c);
        assert forall|i: int| 0 <= i < index_of(s, c) implies s[i] != c by {
            if i > 0 {
                assert(t[i - 1] == s[i]);
            }
        }
    }
}

pub proof fn lemma_word_end(s: Seq<char>)
    ensures
        0 <= word_end(s) <= s.len(),
        s.len() > 0 && !is_ws(s[0]) ==> word_end(s) > 0,
    decreases s.len(),
{
    if s.len() != 0 && !is_ws(s[0]) {
        lemma_word_end(s.drop_first());
    }
}

pub proof fn lemma_blank_at(s: Seq<char>)
    ensures
        0 <= blank_at(s) <= s.len(),
    decreases s.len(),
{
    if s.len() != 0 && s[0] != ' ' && s[0] != '\t' {
        lemma_blank_at(s.drop_first());
    }
}

/// The position of the first `c` at or after `from`, or the length.
pub fn find_from(v: &Vec<char>, from: usize, c: char) -> (r: usize)
    requires
        from <= v.len(),
    ensures
        from <= r <= v.len(),
        r == from + index_of(v@.skip(from as int), c),
{
    let mut i: usize = from;
    while i < v.len() && v[i] != c
        invariant
            from <= i <= v.len(),
            index_of(v@.skip(from as int), c) == i - from + index_of(v@.skip(i as int), c),
        decreases v.len() - i,
    {
        assert(v@.skip(i as int)[0] == v@[i as int]);
        assert(v@.skip(i as int).drop_first() =~= v@.skip(i + 1));
        i += 1;
    }
    assert(i < v.len() ==> v@.skip(i as int)[0] == v@[i as int]);
    i
}

/// The position of the first `c`, or the length.
pub fn find(v: &Vec<char>, c: char) -> (r: usize)
    ensures
        r == index_of(v@, c),
        r <= v.len(),
{
    assert(v@.skip(0) =~= v@);
    find_from(v, 0, c)
}

fn find_ws_from(v: &Vec<char>, from: usize) -> (r: usize)
    requires
        from <= v.len(),
    ensures
        from <= r <= v.len(),
        r == from + word_end(v@.skip(from as int)),
{
    let mut i: usize = from;
    while i < v.len() && !is_whitespace(v[i])
        invariant
            from <= i <= v.len(),
            word_end(v@.skip(from as int)) == i - from + word_end(v@.skip(i as int)),
        decreases v.len() - i,
    {
        assert(v@.skip(i as int)[0] == v@[i as int]);
        assert(v@.skip(i as int).drop_first() =~= v@.skip(i + 1));
        i += 1;
    }
    assert(i < v.len() ==> v@.skip(i as int)[0] == v@[i as int]);
    i
}

/// The position of the first space or tab, or the length.
pub fn find_blank(v: &Vec<char>) -> (r: usize)
    ensures
        r == blank_at(v@),
        r <= v.len(),
{
    let mut i: usize = 0;
    assert(v@.skip(0) =~= v@);
    while i < v.len() && v[i] != ' ' && v[i] != '\t'
        invariant
            i <= v.len(),
            blank_at(v@) == i + blank_at(v@.skip(i as int)),
        decreases v.len() - i,
    {
        assert(v@.skip(i as int)[0] == v@[i as int]);
        assert(v@.skip(i as int).drop_first() =~= v@.skip(i + 1));
        i += 1;
    }
    assert(i < v.len() ==> v@.skip(i as int)[0] == v@[i as int]);
    i
}

/// Does `p` begin `s`?
pub open spec fn has_prefix(s: Seq<char>, p: Seq<char>) -> bool {
    p.len() <= s.len() && s.take(p.len() as int) == p
}

/// Does `p` end `s`?
pub open spec fn has_suffix(s: Seq<char>, p: Seq<char>) -> bool {
    p.len() <= s.len() && s.skip(s.len() - p.len()) == p
}

/// Does `p` occur in `s` at position `i`?
pub open spec fn occurs_at(s: Seq<char>, p: Seq<char>, i: int) -> bool {
    0 <= i && i + p.len() <= s.len() && s.subrange(i, i + p.len()) == p
}

/// Does `p` occur anywhere in `s`?
pub open spec fn has_part(s: Seq<char>, p: Seq<char>) -> bool {
    exists|i: int| occurs_at(s, p, i)
}

fn matches_at(v: &Vec<char>, p: &Vec<char>, at: usize) -> (r: bool)
    requires
        at <= v.len(),
    ensures
        r == occurs_at(v@, p@, at as int),
{
    if p.len() > v.len() - at {
        return false;
    }
    let mut j: usize = 0;
    while j < p.len()
        invariant
            j <= p.len() <= v.len() - at,
            forall|k: int| 0 <= k < j ==> v@[at + k] == p@[k],
        decreases p.len() - j,
    {
        if v[at + j] != p[j] {
            assert(v@.subrange(at as int, at + p@.len())[j as int] == v@[at + j]);
            return false;
        }
        j += 1;
    }
    assert(v@.subrange(at as int, at + p@.len()) =~= p@);
    true
}

pub fn starts_with(v: &Vec<char>, p: &str) -> (r: bool)
    ensures
        r == has_prefix(v@, p@),
{
    let pc = chars_of(p);
    assert(p@.len() <= v@.len() ==> v@.subrange(0, p@.len() as int) =~= v@.take(p@.len() as int));
    matches_at(v, &pc, 0)
}

pub fn ends_with(v: &Vec<char>, p: &str) -> (r: bool)
    ensures
        r == has_suffix(v@, p@),
{
    let pc = chars_of(p);
    if pc.len() > v.len() {
        return false;
    }
    let at: usize = v.len() - pc.len();
    assert(v@.subrange(at as int, at + p@.len()) =~= v@.skip(at as int));
    matches_at(v, &pc, at)
}

pub fn contains(v: &Vec<char>, p: &str) -> (r: bool)
    ensures
        r == has_part(v@, p@),
{
    let pc = chars_of(p);
    let mut i: usize = 0;
    loop
        invariant
            pc@ == p@,
            i <= v.len(),
            forall|k: int| 0 <= k < i ==> !occurs_at(v@, p@, k),
        decreases v.len() - i,
    {
        if matches_at(v, &pc, i) {
            return true;
        }
        if i >= v.len() {
            assert forall|k: int| !occurs_at(v@, p@, k) by {
                if 0 <= k && k > v@.len() {
                    assert(k + p@.len() > v@.len());
                }
            }
            return false;
        }
        i += 1;
    }
}

/// The text after the last `c` of `s`, or `None` when `c` does not occur.
pub open spec fn after_last(s: Seq<char>, c: char) -> Option<Seq<char>>
    decreases s.len(),
{
    if s.len() == 0 {
        None
    } else if s.last() == c {
        Some(Seq::empty())
    } else {
        match after_last(s.drop_last(), c) {
            Some(t) => Some(t.push(s.last())),
            None => None,
        }
    }
}

proof fn lemma_after_last_is_suffix(s: Seq<char>, c: char, from: int)
    requires
        0 <= from <= s.len(),
        from > 0 ==> s[from - 1] == c,
        forall|k: int| from <= k < s.len() ==> s[k] != c,
    ensures
        after_last(s, c) == (if from > 0 {
            Some(s.skip(from))
        } else {
            None
        }),
    decreases s.len(),
{
    if s.len() > 0 {
        if s.last() == c {
            assert(from == s.len());
            assert(s.skip(from) =~= Seq::empty());
        } else {
            let t = s.drop_last();
            lemma_after_last_is_suffix(t, c, from);
            if from > 0 {
                assert(t.skip(from).push(s.last()) =~= s.skip(from));
            }
        }
    }
}

pub(crate) proof fn lemma_after_last_of(s: Seq<char>, c: char, k: int)
    requires
        0 <= k < s.len(),
        s[k] == c,
    ensures
        after_last(s, c) is Some,
    decreases s.len(),
{
    if s.last() != c {
        assert(s.drop_last()[k] == c);
        lemma_after_last_of(s.drop_last(), c, k);
    }
}

pub fn text_after_last(v: &Vec<char>, c: char) -> (r: Option<Vec<char>>)
    ensures
        r is Some <==> after_last(v@, c) is Some,
        r is Some ==> r->Some_0@ == after_last(v@, c)->Some_0,
{
    let mut from: usize = v.len();
    while from > 0 && v[from - 1] != c
        invariant
            from <= v.len(),
            forall|k: int| from <= k < v@.len() ==> v@[k] != c,
        decreases from,
    {
        from -= 1;
    }
    proof {
        lemma_after_last_is_suffix(v@, c, from as int);
    }
    if from == 0 {
        None
    } else {
        assert(v@.subrange(from as int, v@.len() as int) =~= v@.skip(from as int));
        Some(piece(v, from, v.len()))
    }
}

// ---------------------------------------------------------------------------
// Splitting
// ---------------------------------------------------------------------------

/// The maximal runs of non-whitespace characters, in order.
pub open spec fn words(s: Seq<char>) -> Seq<Seq<char>>
    decreases s.len(),
{
    let t = trim_front(s);
    if t.len() == 0 {
        Seq::empty()
    } else {
        proof {
            lemma_trim_front_len(s);
            lemma_word_end(t);
        }
        seq![t.take(word_end(t))] + words(t.skip(word_end(t)))
    }
}

/// The pieces of `s` between the occurrences of `c`, empty ones kept.
pub open spec fn split_on(s: Seq<char>, c: char) -> Seq<Seq<char>>
    decreases s.len(),
{
    let i = index_of(s, c);
    if i >= s.len() {
        seq![s]
    } else {
        proof {
            lemma_index_of(s, c);
        }
        seq![s.take(i)] + split_on(s.skip(i + 1), c)
    }
}

/// A line that ended in a newline, without the carriage return before it.
pub open spec fn strip_cr(s: Seq<char>) -> Seq<char> {
    if s.len() > 0 && s.last() == '\r' {
        s.drop_last()
    } else {
        s
    }
}

/// The lines of `s`. Each newline ends a line; text after the last newline is
/// a line of its own when there is any.
pub open spec fn lines(s: Seq<char>) -> Seq<Seq<char>>
    decreases s.len(),
{
    if s.len() == 0 {
        Seq::empty()
    } else {
        let i = index_of(s, '\n');
        if i >= s.len() {
            seq![s]
        } else {
            proof {
                lemma_index_of(s, '\n');
            }
            seq![strip_cr(s.take(i))] + lines(s.skip(i + 1))
        }
    }
}

pub fn words_of(v: &Vec<char>) -> (r: Vec<Vec<char>>)
    ensures
        views(r@) == words(v@),
{
    let mut out: Vec<Vec<char>> = Vec::new();
    let mut i: usize = 0;
    assert(v@.skip(0) =~= v@);
    assert(views(out@) + words(v@) =~= words(v@));
    loop
        invariant
            i <= v.len(),
            views(out@) + words(v@.skip(i as int)) == words(v@),
        decreases v.len() - i,
    {
        let ghost s = v@.skip(i as int);
        let from = skip_ws(v, i);
        let ghost t = v@.skip(from as int);
        if from == v.len() {
            assert(t.len() == 0);
            assert(views(out@) + words(s) =~= views(out@));
            return out;
        }
        let to = find_ws_from(v, from);
        proof {
            lemma_word_end(t);
            assert(t[0] == v@[from as int]);
            assert(t.take(word_end(t)) =~= v@.subrange(from as int, to as int));
            assert(t.skip(word_end(t)) =~= v@.skip(to as int));
        }
        let w = piece(v, from, to);
        proof {
            lemma_views_push(out@, w);
            assert(views(out@.push(w)) + words(v@.skip(to as int)) =~= views(out@) + words(s));
        }
        out.push(w);
        i = to;
    }
}

pub fn split_at(v: &Vec<char>, c: char) -> (r: Vec<Vec<char>>)
    ensures
        views(r@) == split_on(v@, c),
{
    let mut out: Vec<Vec<char>> = Vec::new();
    let mut i: usize = 0;
    assert(v@.skip(0) =~= v@);
    assert(views(out@) + split_on(v@, c) =~= split_on(v@, c));
    loop
        invariant
            i <= v.len(),
            views(out@) + split_on(v@.skip(i as int), c) == split_on(v@, c),
        decreases v.len() - i,
    {
        let ghost s = v@.skip(i as int);
        let to = find_from(v, i, c);
        let w = piece(v, i, to);
        proof {
            lemma_views_push(out@, w);
        }
        if to == v.len() {
            assert(w@ =~= s);
            assert(views(out@.push(w)) =~= views(out@) + split_on(s, c));
            out.push(w);
            return out;
        }
        proof {
            assert(s.take(index_of(s, c)) =~= w@);
            assert(s.skip(index_of(s, c) + 1) =~= v@.skip(to + 1));
            assert(views(out@.push(w)) + split_on(v@.skip(to + 1), c) =~= views(out@) + split_on(
                s,
                c,
            ));
        }
        out.push(w);
        i = to + 1;
    }
}

pub fn lines_of(v: &Vec<char>) -> (r: Vec<Vec<char>>)
    ensures
        views(r@) == lines(v@),
{
    let mut out: Vec<Vec<char>> = Vec::new();
    let mut i: usize = 0;
    assert(v@.skip(0) =~= v@);
    assert(views(out@) + lines(v@) =~= lines(v@));
    while i < v.len()
        invariant
            i <= v.len(),
            views(out@) + lines(v@.skip(i as int)) == lines(v@),
        decreases v.len() - i,
    {
        let ghost s = v@.skip(i as int);
        let to = find_from(v, i, '\n');
        if to == v.len() {
            let w = piece(v, i, to);
            proof {
                lemma_views_push(out@, w);
                assert(w@ =~= s);
                assert(views(out@.push(w)) =~= views(out@) + lines(s));
            }
            out.push(w);
            return out;
        }
        let end: usize = if to > i && v[to - 1] == '\r' {
            to - 1
        } else {
            to
        };
        let w = piece(v, i, end);
        proof {
            lemma_views_push(out@, w);
            let l = s.take(index_of(s, '\n'));
            assert(l =~= v@.subrange(i as int, to as int));
            if to > i {
                assert(l.last() == v@[to - 1]);
            }
            assert(strip_cr(l) =~= w@);
            assert(s.skip(index_of(s, '\n') + 1) =~= v@.skip(to + 1));
            assert(views(out@.push(w)) + lines(v@.skip(to + 1)) =~= views(out@) + lines(s));
        }
        out.push(w);
        i = to + 1;
    }
    assert(v@.skip(i as int).len() == 0);
    assert(views(out@) + lines(v@.skip(i as int)) =~= views(out@));
    out
}


// ---------------------------------------------------------------------------
// Integers
// ---------------------------------------------------------------------------

pub open spec fn is_digit(c: char) -> bool {
    48 <= c as u32 <= 57
}

/// One or more decimal digits.
pub open spec fn all_digits(s: Seq<char>) -> bool {
    s.len() > 0 && forall|i: int| 0 <= i < s.len() ==> is_digit(#[trigger] s[i])
}

/// The number that decimal digits spell.
pub open spec fn dec_value(s: Seq<char>) -> int
    decreases s.len(),
{
    if s.len() == 0 {
        0
    } else {
        10 * dec_value(s.drop_last()) + (s.last() as u32 - 48)
    }
}

/// The unsigned number that `s` spells, if it is at most `max`. A leading `+`
/// is allowed.
pub open spec fn unsigned_of(s: Seq<char>, max: int) -> Option<int> {
    let d = if s.len() > 0 && s[0] == '+' {
        s.skip(1)
    } else {
        s
    };
    if all_digits(d) && dec_value(d) <= max {
        Some(dec_value(d))
    } else {
        None
    }
}

/// The 32-bit signed number that `s` spells. One leading `+` or `-` is allowed.
pub open spec fn int_of(s: Seq<char>) -> Option<i32> {
    if s.len() > 0 && s[0] == '-' {
        let d = s.skip(1);
        if all_digits(d) && dec_value(d) <= 0x8000_0000 {
            Some((-dec_value(d)) as i32)
        } else {
            None
        }
    } else {
        match unsigned_of(s, 0x7FFF_FFFF) {
            Some(n) => Some(n as i32),
            None => None,
        }
    }
}

/// `int_of`, with a default for text that is no number.
pub open spec fn int_or(s: Seq<char>, default: i32) -> i32 {
    match int_of(s) {
        Some(n) => n,
        None => default,
    }
}

proof fn lemma_dec_value_bounds(s: Seq<char>)
    requires
        forall|i: int| 0 <= i < s.len() ==> is_digit(#[trigger] s[i]),
    ensures
        dec_value(s) >= 0,
    decreases s.len(),
{
    if s.len() > 0 {
        let t = s.drop_last();
        assert forall|i: int| 0 <= i < t.len() implies is_digit(#[trigger] t[i]) by {
            assert(t[i] == s[i]);
        }
        lemma_dec_value_bounds(t);
    }
}

/// The number spelled by the digits from `from` on, if it is at most `max`.
fn digits_from(v: &Vec<char>, from: usize, max: u64) -> (r: Option<u64>)
    requires
        from <= v.len(),
    ensures
        match r {
            Some(n) => all_digits(v@.skip(from as int)) && dec_value(v@.skip(from as int)) == n
                && n <= max,
            None => !all_digits(v@.skip(from as int)) || dec_value(v@.skip(from as int)) > max,
        },
{
    let ghost s = v@.skip(from as int);
    if from == v.len() {
        assert(s.len() == 0);
        return None;
    }
    let mut acc: u128 = 0;
    let mut over: bool = false;
    let mut i: usize = from;
    assert(s.take(0) =~= Seq::empty());
    while i < v.len()
        invariant
            from <= i <= v.len(),
            s == v@.skip(from as int),
            forall|k: int| 0 <= k < i - from ==> is_digit(#[trigger] s[k]),
            !over ==> acc == dec_value(s.take(i - from)) && acc <= max,
            over ==> dec_value(s.take(i - from)) > max,
        decreases v.len() - i,
    {
        let n: u32 = v[i] as u32;
        assert(s[i - from] == v@[i as int]);
        if n < 48 || n > 57 {
            assert(!is_digit(s[i - from]));
            return None;
        }
        proof {
            let u = s.take(i - from + 1);
            assert(u.drop_last() =~= s.take(i - from));
            assert(u.last() == s[i - from]);
            lemma_dec_value_bounds(s.take(i - from));
        }
        if !over {
            acc = acc * 10 + (n - 48) as u128;
            if acc > max as u128 {
                over = true;
            }
        }
        i += 1;
    }
    assert(s.take(v.len() - from) =~= s);
    if over {
        None
    } else {
        Some(acc as u64)
    }
}

pub fn parse_unsigned(v: &Vec<char>, max: u64) -> (r: Option<u64>)
    ensures
        match r {
            Some(n) => unsigned_of(v@, max as int) == Some(n as int),
            None => unsigned_of(v@, max as int) is None,
        },
{
    let from: usize = if v.len() > 0 && v[0] == '+' {
        1
    } else {
        0
    };
    assert(v@.skip(0) =~= v@);
    digits_from(v, from, max)
}

pub fn parse_int(v: &Vec<char>) -> (r: Option<i32>)
    ensures
        r == int_of(v@),
{
    if v.len() > 0 && v[0] == '-' {
        match digits_from(v, 1, 0x8000_0000) {
            Some(n) => Some((-(n as i64)) as i32),
            None => None,
        }
    } else {
        match parse_unsigned(v, 0x7FFF_FFFF) {
            Some(n) => Some(n as i32),
            None => None,
        }
    }
}

pub fn parse_int_or(v: &Vec<char>, default: i32) -> (r: i32)
    ensures
        r == int_or(v@, default),
{
    match parse_int(v) {
        Some(n) => n,
        None => default,
    }
}

/// The character of a decimal digit.
pub open spec fn digit_char(d: int) -> char {
    (48 + d) as char
}

/// The decimal digits of a natural number, without leading zeros.
pub open spec fn decimal(n: int) -> Seq<char>
    decreases n,
{
    if n < 10 {
        seq![digit_char(n)]
    } else {
        decimal(n / 10).push(digit_char(n % 10))
    }
}

/// The decimal text of an integer.
pub open spec fn show(n: int) -> Seq<char> {
    if n < 0 {
        seq!['-'] + decimal(-n)
    } else {
        decimal(n)
    }
}

pub(crate) fn push_decimal(out: &mut String, n: u128)
    ensures
        final(out)@ == old(out)@ + decimal(n as int),
    decreases n,
{
    if n >= 10 {
        push_decimal(out, n / 10);
    }
    let d: u8 = (n % 10) as u8;
    let c: char = (48 + d) as char;
    out.push(c);
    assert(out@ =~= old(out)@ + decimal(n as int));
}

/// Appends the decimal text of `n`.
pub fn push_int(out: &mut String, n: i64)
    ensures
        final(out)@ == old(out)@ + show(n as int),
{
    if n < 0 {
        out.push('-');
        let m: u128 = (-(n as i128)) as u128;
        push_decimal(out, m);
        assert(out@ =~= old(out)@ + show(n as int));
    } else {
        push_decimal(out, n as u128);
    }
}

/// A number to four decimal places, where `unit` makes one ten-thousandth.
/// Halves round away from zero; a negative number keeps its sign.
pub open spec fn fixed4(n: int, unit: int) -> Seq<char> {
    let m = if n < 0 {
        -n
    } else {
        n
    };
    let k = (m + unit / 2) / unit;
    let sign = if n < 0 {
        seq!['-']
    } else {
        Seq::empty()
    };
    sign + decimal(k / 10_000) + seq![
        '.',
        digit_char(k / 1000 % 10),
        digit_char(k / 100 % 10),
        digit_char(k / 10 % 10),
        digit_char(k % 10),
    ]
}

fn push_digit(out: &mut String, d: u128)
    requires
        d < 10,
    ensures
        final(out)@ == old(out)@.push(digit_char(d as int)),
{
    let c: char = (48 + d as u8) as char;
    out.push(c);
}

/// Appends a number to four decimal places.
pub(crate) fn push_fixed4(out: &mut String, n: i128, unit: u128)
    requires
        -0x4000_0000_0000_0000_0000_0000_0000_0000 < n < 0x4000_0000_0000_0000_0000_0000_0000_0000,
        0 < unit <= 1_000_000_000,
    ensures
        final(out)@ == old(out)@ + fixed4(n as int, unit as int),
{
    let m: u128 = if n < 0 {
        out.push('-');
        (-n) as u128
    } else {
        n as u128
    };
    let k: u128 = (m + unit / 2) / unit;
    push_decimal(out, k / 10_000);
    out.push('.');
    push_digit(out, k / 1000 % 10);
    push_digit(out, k / 100 % 10);
    push_digit(out, k / 10 % 10);
    push_digit(out, k % 10);
    assert(out@ =~= old(out)@ + fixed4(n as int, unit as int));
}

pub fn int_text(n: i64) -> (r: String)
    ensures
        r@ == show(n as int),
{
    let mut s = String::new();
    push_int(&mut s, n);
    assert(Seq::<char>::empty() + show(n as int) =~= show(n as int));
    s
}

pub(crate) proof fn lemma_decimal(n: int)
    requires
        n >= 0,
    ensures
        all_digits(decimal(n)),
        dec_value(decimal(n)) == n,
        decimal(n)[0] != '-',
        decimal(n)[0] != '+',
    decreases n,
{
    let s = decimal(n);
    assert(digit_char(n % 10) as u32 == 48 + n % 10);
    if n < 10 {
        assert(s.drop_last() =~= Seq::empty());
        assert(dec_value(s.drop_last()) == 0);
    } else {
        lemma_decimal(n / 10);
        let t = decimal(n / 10);
        assert(s.drop_last() =~= t);
        assert(s[0] == t[0]);
        assert forall|i: int| 0 <= i < s.len() implies is_digit(#[trigger] s[i]) by {
            if i < t.len() {
                assert(s[i] == t[i]);
            }
        }
    }
}

/// A 32-bit number written out in decimal reads back as itself.
pub proof fn law_show_then_parse(n: i32)
    ensures
        int_of(show(n as int)) == Some(n),
{
    if n < 0 {
        lemma_decimal(-(n as int));
        assert(show(n as int).skip(1) =~= decimal(-(n as int)));
    } else {
        lemma_decimal(n as int);
    }
}

// ---------------------------------------------------------------------------
// Laws
// ---------------------------------------------------------------------------

/// Is every character of a text whitespace?
pub open spec fn all_ws(s: Seq<char>) -> bool {
    forall|i: int| 0 <= i < s.len() ==> is_ws(#[trigger] s[i])
}

/// Has a text no whitespace at its ends?
pub open spec fn is_trim(s: Seq<char>) -> bool {
    s.len() > 0 ==> !is_ws(s[0]) && !is_ws(s.last())
}

/// Is a text a word: some characters, none of them whitespace?
pub open spec fn is_word(s: Seq<char>) -> bool {
    s.len() > 0 && forall|i: int| 0 <= i < s.len() ==> !is_ws(#[trigger] s[i])
}

proof fn lemma_trim_front_of(a: Seq<char>, s: Seq<char>)
    requires
        all_ws(a),
        s.len() > 0 ==> !is_ws(s[0]),
    ensures
        trim_front(a + s) == s,
    decreases a.len(),
{
    if a.len() == 0 {
        assert(a + s =~= s);
    } else {
        assert((a + s)[0] == a[0]);
        assert((a + s).drop_first() =~= a.drop_first() + s);
        lemma_trim_front_of(a.drop_first(), s);
    }
}

proof fn lemma_trim_back_of(s: Seq<char>, b: Seq<char>)
    requires
        all_ws(b),
        s.len() > 0 ==> !is_ws(s.last()),
    ensures
        trim_back(s + b) == s,
    decreases b.len(),
{
    if b.len() == 0 {
        assert(s + b =~= s);
    } else {
        assert((s + b).last() == b.last());
        assert((s + b).drop_last() =~= s + b.drop_last());
        lemma_trim_back_of(s, b.drop_last());
    }
}

/// Trimming takes the whitespace off both ends, and nothing else.
pub proof fn law_trim_takes_the_ends_off(a: Seq<char>, s: Seq<char>, b: Seq<char>)
    requires
        all_ws(a),
        all_ws(b),
        is_trim(s),
    ensures
        trim(a + s + b) == s,
{
    if s.len() == 0 {
        assert(a + s + b =~= (a + b) + s);
        lemma_trim_front_of(a + b, s);
        assert(s + Seq::<char>::empty() =~= s);
    } else {
        assert(a + s + b =~= a + (s + b));
        lemma_trim_front_of(a, s + b);
        lemma_trim_back_of(s, b);
    }
}

/// The space, the tab, the newline and the carriage return are whitespace; letters,
/// digits and the marks of a configuration are not.
pub proof fn law_whitespace()
    ensures
        is_ws(' ') && is_ws('\t') && is_ws('\n') && is_ws('\r'),
        forall|c: char| 0x21 <= c as u32 <= 0x7e ==> !#[trigger] is_ws(c),
{
}

proof fn lemma_word_end_of(a: Seq<char>, c: char, b: Seq<char>)
    requires
        is_ws(c),
    ensures
        word_end(a.push(c) + b) == word_end(a),
        0 <= word_end(a) <= a.len(),
    decreases a.len(),
{
    let s = a.push(c) + b;
    if a.len() == 0 {
        assert(s[0] == c);
    } else {
        assert(s[0] == a[0]);
        assert(s.drop_first() =~= a.drop_first().push(c) + b);
        lemma_word_end_of(a.drop_first(), c, b);
    }
}

/// Whitespace parts words: the words of two texts with whitespace between them are
/// those of the first and then those of the second.
pub proof fn law_whitespace_parts_words(a: Seq<char>, c: char, b: Seq<char>)
    requires
        is_ws(c),
    ensures
        words(a.push(c) + b) == words(a) + words(b),
    decreases a.len(),
{
    let s = a.push(c) + b;
    if a.len() == 0 {
        assert(s[0] == c);
        assert(s.drop_first() =~= b);
        assert(trim_front(s) == trim_front(b));
        assert(words(s) == words(b));
        assert(words(a) + words(b) =~= words(b));
    } else if is_ws(a[0]) {
        assert(s[0] == a[0]);
        assert(s.drop_first() =~= a.drop_first().push(c) + b);
        assert(trim_front(s) == trim_front(s.drop_first()));
        assert(trim_front(a) == trim_front(a.drop_first()));
        assert(words(s) == words(s.drop_first()));
        assert(words(a) == words(a.drop_first()));
        law_whitespace_parts_words(a.drop_first(), c, b);
    } else {
        assert(s[0] == a[0]);
        let e = word_end(a);
        lemma_word_end(a);
        lemma_word_end_of(a, c, b);
        assert(s.take(e) =~= a.take(e));
        assert(s.skip(e) =~= a.skip(e).push(c) + b);
        law_whitespace_parts_words(a.skip(e), c, b);
        assert(words(a) == seq![a.take(e)] + words(a.skip(e)));
        assert(words(s) == seq![s.take(e)] + words(s.skip(e)));
        assert(words(s) =~= words(a) + words(b));
    }
}

proof fn lemma_word_end_all(w: Seq<char>)
    requires
        forall|i: int| 0 <= i < w.len() ==> !is_ws(#[trigger] w[i]),
    ensures
        word_end(w) == w.len(),
    decreases w.len(),
{
    if w.len() > 0 {
        lemma_word_end_all(w.drop_first());
    }
}

/// A word is its own only word, and a text without any has none.
pub proof fn law_a_word_is_one_word(w: Seq<char>)
    ensures
        is_word(w) ==> words(w) == seq![w],
        all_ws(w) ==> words(w).len() == 0,
{
    if is_word(w) {
        lemma_word_end_all(w);
        assert(w.take(w.len() as int) =~= w);
        assert(w.skip(w.len() as int) =~= Seq::empty());
        assert(trim_front(Seq::<char>::empty()) =~= Seq::empty());
        assert(words(Seq::<char>::empty()) =~= Seq::empty());
        assert(words(w) =~= seq![w]);
    }
    if all_ws(w) {
        lemma_trim_front_of(w, Seq::empty());
        assert(w + Seq::<char>::empty() =~= w);
    }
}

proof fn lemma_index_of_part(a: Seq<char>, c: char, b: Seq<char>)
    requires
        forall|i: int| 0 <= i < a.len() ==> a[i] != c,
    ensures
        index_of(a.push(c) + b, c) == a.len(),
{
    let s = a.push(c) + b;
    lemma_index_of(s, c);
    assert(s[a.len() as int] == c);
    let k = index_of(s, c);
    if k < a.len() {
        assert(s[k] == a[k]);
    }
}

/// The first occurrence of a character parts a text, and the pieces are the part
/// before it and those of the rest. A text without it is its only piece.
pub proof fn law_separators_part_pieces(a: Seq<char>, c: char, b: Seq<char>)
    requires
        forall|i: int| 0 <= i < a.len() ==> a[i] != c,
    ensures
        split_on(a.push(c) + b, c) == seq![a] + split_on(b, c),
        split_on(a, c) == seq![a],
{
    let s = a.push(c) + b;
    lemma_index_of_part(a, c, b);
    lemma_index_of(a, c);
    assert(s.take(a.len() as int) =~= a);
    assert(s.skip((a.len() + 1) as int) =~= b);
}

/// A newline ends a line; a carriage return before it belongs to the line end. The
/// lines of the text after it follow. A text without a newline is one line.
pub proof fn law_newlines_part_lines(a: Seq<char>, b: Seq<char>)
    requires
        forall|i: int| 0 <= i < a.len() ==> a[i] != '\n',
    ensures
        a.len() == 0 || a.last() != '\r' ==> lines(a.push('\n') + b) == seq![a] + lines(b),
        lines(a.push('\r').push('\n') + b) == seq![a] + lines(b),
        a.len() > 0 ==> lines(a) == seq![a],
        lines(Seq::empty()).len() == 0,
{
    let s = a.push('\n') + b;
    lemma_index_of_part(a, '\n', b);
    lemma_index_of(a, '\n');
    assert(s.take(a.len() as int) =~= a);
    assert(s.skip((a.len() + 1) as int) =~= b);
    let a2 = a.push('\r');
    let s2 = a2.push('\n') + b;
    lemma_index_of_part(a2, '\n', b);
    assert(s2.take(a2.len() as int) =~= a2);
    assert(s2.skip((a2.len() + 1) as int) =~= b);
    assert(a2.drop_last() =~= a);
}

/// A number may carry a plus sign and leading zeros; what is out of the range of 32
/// bits, or holds anything but digits behind its sign, is no number.
pub proof fn law_what_is_a_number(n: int, s: Seq<char>, i: int)
    ensures
        0 <= n <= 0x7fff_ffff ==> int_of(seq!['+'] + decimal(n)) == Some(n as i32),
        0 <= n <= 0x7fff_ffff ==> int_of(seq!['0'] + decimal(n)) == Some(n as i32),
        n > 0x7fff_ffff ==> int_of(decimal(n)) is None,
        n > 0x8000_0000 ==> int_of(seq!['-'] + decimal(n)) is None,
        0 <= i < s.len() && !(48 <= s[i] as u32 <= 57) && (i > 0 || s.len() == 1 || (s[i] != '+'
            && s[i] != '-')) ==> int_of(s) is None,
        s.len() == 0 ==> int_of(s) is None,
{
    if n >= 0 {
        lemma_decimal(n);
        let d = decimal(n);
        assert((seq!['+'] + d).skip(1) =~= d);
        assert((seq!['-'] + d).skip(1) =~= d);
        let z = seq!['0'] + d;
        lemma_leading_zero(d);
        assert(all_digits(z)) by {
            assert forall|k: int| 0 <= k < z.len() implies is_digit(#[trigger] z[k]) by {
                if k > 0 {
                    assert(z[k] == d[k - 1]);
                }
            }
        }
    }
    if 0 <= i < s.len() && !is_digit(s[i]) {
        if i > 0 {
            assert(s.skip(1)[i - 1] == s[i]);
        }
        assert(!all_digits(s));
    }
}

proof fn lemma_leading_zero(d: Seq<char>)
    ensures
        dec_value(seq!['0'] + d) == dec_value(d),
    decreases d.len(),
{
    let z = seq!['0'] + d;
    if d.len() == 0 {
        assert(z =~= seq!['0']);
        assert(z.drop_last() =~= Seq::empty());
        reveal_with_fuel(dec_value, 2);
    } else {
        assert(z.drop_last() =~= seq!['0'] + d.drop_last());
        lemma_leading_zero(d.drop_last());
    }
}

/// What follows the last of a character is the part behind it; a text without the
/// character has none.
pub proof fn law_text_after_the_last(a: Seq<char>, c: char, b: Seq<char>)
    requires
        forall|i: int| 0 <= i < b.len() ==> b[i] != c,
    ensures
        after_last(a.push(c) + b, c) == Some(b),
        after_last(b, c) is None,
{
    let s = a.push(c) + b;
    lemma_after_last_is_suffix(s, c, (a.len() + 1) as int);
    assert(s.skip((a.len() + 1) as int) =~= b);
    lemma_after_last_is_suffix(b, c, 0);
}

/// A text begins with its own front, ends with its own back, and holds every part.
pub proof fn law_parts_of_a_text(a: Seq<char>, p: Seq<char>, b: Seq<char>)
    ensures
        has_prefix(p + b, p),
        has_suffix(a + p, p),
        has_part(a + p + b, p),
{
    assert((p + b).take(p.len() as int) =~= p);
    assert((a + p).skip((a + p).len() - p.len()) =~= p);
    let s = a + p + b;
    assert(s.subrange(a.len() as int, (a.len() + p.len()) as int) =~= p);
    assert(occurs_at(s, p, a.len() as int));
}

// ---------------------------------------------------------------------------
// Letter case
// ---------------------------------------------------------------------------

/// The Unicode lowercase form of a text.
pub uninterp spec fn lowercase(s: Seq<char>) -> Seq<char>;

/// A character with `A` to `Z` mapped to `a` to `z`.
pub open spec fn ascii_lower(c: char) -> char {
    if 65 <= c as u32 <= 90 {
        (c as u32 + 32) as char
    } else {
        c
    }
}

/// `str::to_lowercase`. The result is the Unicode lowercase form of the text,
/// which depends on the text alone; on ASCII text it maps the letters one by one.
#[verifier::external_body]
pub(crate) fn to_lower(s: &str) -> (r: String)
    ensures
        r@ == lowercase(s@),
        is_ascii(s) ==> r@ == s@.map_values(|c: char| ascii_lower(c)),
{
    s.to_lowercase()
}

proof fn lemma_last_digit(n: int, rest: int, digit: int)
    requires
        n == 10 * rest + digit,
        0 <= digit < 10,
    ensures
        n / 10 == rest,
        n % 10 == digit,
{
}

/// A number is written as its sign, its whole part, a point and four decimals, of which the
/// last is worth `unit`: together they are the nearest to it.
pub proof fn law_four_decimals(n: int, unit: int, k: int, whole: int, a: int, b: int, c: int, d: int)
    requires
        unit > 0,
        unit % 2 == 0,
        ({
            let m = if n < 0 {
                -n
            } else {
                n
            };
            -unit <= 2 * (m - k * unit) < unit
        }),
        k == 10_000 * whole + 1000 * a + 100 * b + 10 * c + d,
        0 <= whole,
        0 <= a < 10,
        0 <= b < 10,
        0 <= c < 10,
        0 <= d < 10,
    ensures
        n >= 0 ==> fixed4(n, unit) == decimal(whole) + seq![
            '.',
            (48 + a) as char,
            (48 + b) as char,
            (48 + c) as char,
            (48 + d) as char,
        ],
        n < 0 ==> fixed4(n, unit) == seq!['-'] + decimal(whole) + seq![
            '.',
            (48 + a) as char,
            (48 + b) as char,
            (48 + c) as char,
            (48 + d) as char,
        ],
{
    let m = if n < 0 {
        -n
    } else {
        n
    };
    let x = m + unit / 2;
    assert(k * unit == unit * k) by (nonlinear_arith);
    assert(x / unit == k) by {
        vstd::arithmetic::div_mod::lemma_fundamental_div_mod_converse(x, unit, k, x - k * unit);
    }
    lemma_last_digit(k, 1000 * whole + 100 * a + 10 * b + c, d);
    lemma_last_digit(k / 10, 100 * whole + 10 * a + b, c);
    lemma_last_digit(k / 10 / 10, 10 * whole + a, b);
    lemma_last_digit(k / 10 / 10 / 10, whole, a);
    assert(k / 100 == k / 10 / 10 && k / 1000 == k / 10 / 10 / 10 && k / 10_000 == whole);
    assert(Seq::<char>::empty() + decimal(whole) =~= decimal(whole));
}

} // verus!
