use vstd::prelude::*;
use vstd::string::*;
use crate::text::{
    is_space, is_space_char, leading_spaces, lemma_leading_spaces_bound, lemma_leading_spaces_is,
    to_chars,
};

verus! {

/// Index of the first `c` in `s`, or the length of `s` where there is none.
pub open spec fn first_index(s: Seq<char>, c: char) -> nat
    decreases s.len(),
{
    if s.len() == 0 || s[0] == c {
        0
    } else {
        1 + first_index(s.drop_first(), c)
    }
}

/// Index of the first white-space character of `s`, or the length of `s`.
pub open spec fn first_space(s: Seq<char>) -> nat
    decreases s.len(),
{
    if s.len() == 0 || is_space(s[0]) {
        0
    } else {
        1 + first_space(s.drop_first())
    }
}

/// The place of a `c` that no `c` comes before is the first index of `c`.
pub proof fn lemma_first_index_is(s: Seq<char>, c: char, k: int)
    requires
        0 <= k <= s.len(),
        forall|j: int| 0 <= j < k ==> #[trigger] s[j] != c,
        k < s.len() ==> s[k] == c,
    ensures
        first_index(s, c) == k,
    decreases k,
{
    if k > 0 {
        let t = s.drop_first();
        assert forall|j: int| 0 <= j < k - 1 implies #[trigger] t[j] != c by {
            assert(t[j] == s[j + 1]);
        }
        lemma_first_index_is(t, c, k - 1);
    }
}

/// The first `c` lies within the text or at its end, and no `c` comes
/// before it.
pub proof fn lemma_first_index_bound(s: Seq<char>, c: char)
    ensures
        first_index(s, c) <= s.len(),
        forall|j: int| 0 <= j < first_index(s, c) ==> #[trigger] s[j] != c,
        first_index(s, c) < s.len() ==> s[first_index(s, c) as int] == c,
    decreases s.len(),
{
    if s.len() == 0 || s[0] == c {
    } else {
        let t = s.drop_first();
        lemma_first_index_bound(t, c);
        assert forall|j: int| 0 <= j < first_index(s, c) implies #[trigger] s[j] != c by {
            if j > 0 {
                assert(s[j] == t[j - 1]);
            }
        }
        if first_index(s, c) < s.len() {
            assert(s[first_index(s, c) as int] == t[first_index(t, c) as int]);
        }
    }
}

/// The place of a white-space character that none comes before is the first
/// space.
pub proof fn lemma_first_space_is(s: Seq<char>, k: int)
    requires
        0 <= k <= s.len(),
        forall|j: int| 0 <= j < k ==> !is_space(#[trigger] s[j]),
        k < s.len() ==> is_space(s[k]),
    ensures
        first_space(s) == k,
    decreases k,
{
    if k > 0 {
        let t = s.drop_first();
        assert forall|j: int| 0 <= j < k - 1 implies !is_space(#[trigger] t[j]) by {
            assert(t[j] == s[j + 1]);
        }
        lemma_first_space_is(t, k - 1);
    }
}

/// The first white space lies within the text or at its end.
pub proof fn lemma_first_space_bound(s: Seq<char>)
    ensures
        first_space(s) <= s.len(),
    decreases s.len(),
{
    if s.len() == 0 || is_space(s[0]) {
    } else {
        lemma_first_space_bound(s.drop_first());
    }
}

/// The views of a sequence of string slices.
pub open spec fn strs(v: Seq<&str>) -> Seq<Seq<char>> {
    Seq::new(v.len(), |i: int| v[i]@)
}

/// Index of the first `c` at or after `from` in `cs`, or the length of `cs`.
fn scan_char(cs: &Vec<char>, from: usize, c: char) -> (k: usize)
    requires
        from <= cs.len(),
    ensures
        from <= k <= cs.len(),
        k - from == first_index(cs@.subrange(from as int, cs.len() as int), c),
        forall|j: int| from <= j < k ==> #[trigger] cs@[j] != c,
        k < cs.len() ==> cs@[k as int] == c,
{
    let mut k: usize = from;
    while k < cs.len() && cs[k] != c
        invariant
            from <= k <= cs.len(),
            forall|j: int| from <= j < k ==> #[trigger] cs@[j] != c,
        decreases cs.len() - k,
    {
        k += 1;
    }
    proof {
        let t = cs@.subrange(from as int, cs.len() as int);
        assert forall|j: int| 0 <= j < k - from implies #[trigger] t[j] != c by {
            assert(t[j] == cs@[j + from]);
        }
        lemma_first_index_is(t, c, k - from);
    }
    k
}

/// Index of the first `c` in `s`, where there is one.
pub fn index_of(s: &str, c: char) -> (r: Option<usize>)
    ensures
        r is Some <==> first_index(s@, c) < s@.len(),
        r is Some ==> r.unwrap() == first_index(s@, c),
{
    let cs = to_chars(s);
    let k = scan_char(&cs, 0, c);
    assert(cs@.subrange(0, cs.len() as int) =~= s@);
    if k < cs.len() {
        Some(k)
    } else {
        None
    }
}

/// The part of `s` before its first `c`; all of `s` where there is none.
pub open spec fn before_first(s: Seq<char>, c: char) -> Seq<char> {
    s.subrange(0, first_index(s, c) as int)
}

/// The part of `s` before its first `c`, as a slice of `s`.
pub fn before_char<'a>(s: &'a str, c: char) -> (r: &'a str)
    ensures
        r@ == before_first(s@, c),
{
    let cs = to_chars(s);
    let k = scan_char(&cs, 0, c);
    assert(cs@.subrange(0, cs.len() as int) =~= s@);
    s.substring_char(0, k)
}

/// The parts of `s` before and after its first `c`, where there is one.
pub open spec fn split_once_at(s: Seq<char>, c: char) -> Option<(Seq<char>, Seq<char>)> {
    let k = first_index(s, c);
    if k < s.len() {
        Some((s.subrange(0, k as int), s.subrange(k as int + 1, s.len() as int)))
    } else {
        None
    }
}

/// The parts of `s` before and after its first `c`, as slices of `s`.
pub fn split_once<'a>(s: &'a str, c: char) -> (r: Option<(&'a str, &'a str)>)
    ensures
        r is Some <==> split_once_at(s@, c) is Some,
        r is Some ==> (r.unwrap().0@, r.unwrap().1@) == split_once_at(s@, c).unwrap(),
{
    let cs = to_chars(s);
    let k = scan_char(&cs, 0, c);
    assert(cs@.subrange(0, cs.len() as int) =~= s@);
    if k < cs.len() {
        Some((s.substring_char(0, k), s.substring_char(k + 1, cs.len())))
    } else {
        None
    }
}

/// The parts of `s` between occurrences of `c`, in order. A string without
/// `c` is its own single part.
pub open spec fn split_on(s: Seq<char>, c: char) -> Seq<Seq<char>>
    decreases s.len(),
{
    let k = first_index(s, c);
    if k >= s.len() {
        seq![s]
    } else {
        seq![s.subrange(0, k as int)] + split_on(s.subrange(k as int + 1, s.len() as int), c)
    }
}

/// The parts of `s` between occurrences of `c`, as slices of `s`.
pub fn split<'a>(s: &'a str, c: char) -> (r: Vec<&'a str>)
    ensures
        strs(r@) == split_on(s@, c),
{
    let cs = to_chars(s);
    let n = cs.len();
    let mut r: Vec<&'a str> = Vec::new();
    let mut start: usize = 0;
    assert(s@.subrange(0, n as int) =~= s@);
    assert(strs(r@) + split_on(s@.subrange(0, n as int), c) =~= split_on(s@, c));
    loop
        invariant_except_break
            strs(r@) + split_on(s@.subrange(start as int, n as int), c) == split_on(s@, c),
        invariant
            start <= n,
            n == cs.len(),
            cs@ == s@,
        ensures
            strs(r@) == split_on(s@, c),
        decreases n - start,
    {
        let k = scan_char(&cs, start, c);
        let part = s.substring_char(start, k);
        let ghost sub = s@.subrange(start as int, n as int);
        let ghost before = r@;
        r.push(part);
        proof {
            assert(sub.subrange(0, k - start) =~= part@);
            assert(strs(r@) =~= strs(before) + seq![part@]);
        }
        if k >= n {
            proof {
                assert(part@ =~= sub);
                assert(split_on(sub, c) =~= seq![sub]);
            }
            break;
        }
        proof {
            assert(sub.subrange(k - start + 1, sub.len() as int) =~= s@.subrange(k + 1, n as int));
            assert(strs(r@) + split_on(s@.subrange(k + 1, n as int), c) =~= strs(before)
                + split_on(sub, c));
        }
        start = k + 1;
    }
    r
}

/// `l` without one trailing carriage return.
pub open spec fn strip_cr(l: Seq<char>) -> Seq<char> {
    if l.len() > 0 && l.last() == '\r' {
        l.drop_last()
    } else {
        l
    }
}

/// The lines of `s`: the text between line feeds, each without the carriage
/// return that stood before its line feed. What follows the last line feed is
/// a line only where it is not empty.
pub open spec fn lines_of(s: Seq<char>) -> Seq<Seq<char>>
    decreases s.len(),
{
    if s.len() == 0 {
        Seq::empty()
    } else {
        let k = first_index(s, '\n');
        if k >= s.len() {
            seq![s]
        } else {
            seq![strip_cr(s.subrange(0, k as int))] + lines_of(s.subrange(k as int + 1, s.len() as int))
        }
    }
}

/// The lines of `s`, as slices of `s`.
pub fn lines<'a>(s: &'a str) -> (r: Vec<&'a str>)
    ensures
        strs(r@) == lines_of(s@),
{
    let cs = to_chars(s);
    let n = cs.len();
    let mut r: Vec<&'a str> = Vec::new();
    let mut start: usize = 0;
    assert(s@.subrange(0, n as int) =~= s@);
    assert(strs(r@) + lines_of(s@.subrange(0, n as int)) =~= lines_of(s@));
    while start < n
        invariant
            start <= n,
            n == cs.len(),
            cs@ == s@,
            strs(r@) + lines_of(s@.subrange(start as int, n as int)) == lines_of(s@),
        decreases n - start,
    {
        let k = scan_char(&cs, start, '\n');
        let ghost sub = s@.subrange(start as int, n as int);
        let ghost before = r@;
        if k >= n {
            let part = s.substring_char(start, n);
            r.push(part);
            proof {
                assert(part@ =~= sub);
                assert(strs(r@) =~= strs(before) + seq![part@]);
                assert(lines_of(s@.subrange(n as int, n as int)) =~= Seq::<Seq<char>>::empty());
                assert(strs(r@) + lines_of(s@.subrange(n as int, n as int)) =~= strs(before)
                    + lines_of(sub));
            }
            start = n;
        } else {
            let end = if k > start && cs[k - 1] == '\r' {
                k - 1
            } else {
                k
            };
            let part = s.substring_char(start, end);
            r.push(part);
            proof {
                let line = sub.subrange(0, k - start);
                assert(line =~= s@.subrange(start as int, k as int));
                if k > start {
                    assert(line.last() == cs@[k - 1]);
                }
                assert(strip_cr(line) =~= part@);
                assert(strs(r@) =~= strs(before) + seq![part@]);
                assert(sub.subrange(k - start + 1, sub.len() as int) =~= s@.subrange(
                    k + 1,
                    n as int,
                ));
                assert(strs(r@) + lines_of(s@.subrange(k + 1, n as int)) =~= strs(before)
                    + lines_of(sub));
            }
            start = k + 1;
        }
    }
    proof {
        assert(lines_of(s@.subrange(n as int, n as int)) =~= Seq::<Seq<char>>::empty());
        assert(strs(r@) + Seq::<Seq<char>>::empty() =~= strs(r@));
    }
    r
}

/// The words of `s`: its maximal runs of characters that are not white space.
pub open spec fn words_of(s: Seq<char>) -> Seq<Seq<char>>
    decreases s.len(),
{
    let a = leading_spaces(s);
    if a >= s.len() {
        Seq::empty()
    } else {
        let t = s.subrange(a as int, s.len() as int);
        let k = first_space(t);
        proof {
            lemma_leading_spaces_bound(s);
            lemma_first_space_bound(t);
        }
        seq![t.subrange(0, k as int)] + words_of(t.subrange(k as int, t.len() as int))
    }
}

/// The words of `s`, as slices of `s`.
pub fn split_whitespace<'a>(s: &'a str) -> (r: Vec<&'a str>)
    ensures
        strs(r@) == words_of(s@),
{
    let cs = to_chars(s);
    let n = cs.len();
    let mut r: Vec<&'a str> = Vec::new();
    let mut pos: usize = 0;
    assert(s@.subrange(0, n as int) =~= s@);
    assert(strs(r@) + words_of(s@.subrange(0, n as int)) =~= words_of(s@));
    loop
        invariant
            pos <= n,
            n == cs.len(),
            cs@ == s@,
            strs(r@) + words_of(s@.subrange(pos as int, n as int)) == words_of(s@),
        ensures
            strs(r@) == words_of(s@),
        decreases n - pos,
    {
        let ghost sub = s@.subrange(pos as int, n as int);
        let mut a: usize = pos;
        while a < n && is_space_char(cs[a])
            invariant
                pos <= a <= n,
                n == cs.len(),
                forall|j: int| pos <= j < a ==> is_space(#[trigger] cs@[j]),
            decreases n - a,
        {
            a += 1;
        }
        proof {
            assert forall|j: int| 0 <= j < a - pos implies is_space(#[trigger] sub[j]) by {
                assert(sub[j] == cs@[j + pos]);
            }
            lemma_leading_spaces_is(sub, a - pos);
        }
        if a >= n {
            proof {
                assert(words_of(sub) =~= Seq::<Seq<char>>::empty());
                assert(strs(r@) + Seq::<Seq<char>>::empty() =~= strs(r@));
            }
            break;
        }
        let mut b: usize = a + 1;
        while b < n && !is_space_char(cs[b])
            invariant
                a < b <= n,
                n == cs.len(),
                forall|j: int| a <= j < b ==> !is_space(#[trigger] cs@[j]),
            decreases n - b,
        {
            b += 1;
        }
        let part = s.substring_char(a, b);
        let ghost before = r@;
        r.push(part);
        proof {
            let t = sub.subrange(a - pos, sub.len() as int);
            assert(t =~= s@.subrange(a as int, n as int));
            assert forall|j: int| 0 <= j < b - a implies !is_space(#[trigger] t[j]) by {
                assert(t[j] == cs@[j + a]);
            }
            lemma_first_space_is(t, b - a);
            assert(t.subrange(0, b - a) =~= part@);
            assert(t.subrange(b - a, t.len() as int) =~= s@.subrange(b as int, n as int));
            assert(strs(r@) =~= strs(before) + seq![part@]);
            assert(strs(r@) + words_of(s@.subrange(b as int, n as int)) =~= strs(before)
                + words_of(sub));
        }
        pos = b;
    }
    r
}

} // verus!
