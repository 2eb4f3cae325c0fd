//! Splitting a string on a separator character, and removal of duplicate
//! pieces, specified over sequences of characters.

use vstd::prelude::*;

verus! {

/// The views of a sequence of owned strings.
pub open spec fn views_of(v: Seq<String>) -> Seq<Seq<char>> {
    v.map_values(|p: String| p@)
}

/// The pieces of `s` cut at every occurrence of `sep`, separators dropped,
/// empty pieces kept. An empty input has the single empty piece, so the
/// result always holds at least one piece.
pub open spec fn split_on(s: Seq<char>, sep: char) -> Seq<Seq<char>>
    decreases s.len(),
{
    if s.len() == 0 {
        seq![Seq::<char>::empty()]
    } else if s.last() == sep {
        split_on(s.drop_last(), sep).push(Seq::<char>::empty())
    } else {
        let rest = split_on(s.drop_last(), sep);
        rest.update(rest.len() - 1, rest.last().push(s.last()))
    }
}

/// `s` with later repetitions of a piece removed: each piece keeps its first
/// occurrence only, in order.
pub open spec fn dedup_first(s: Seq<Seq<char>>) -> Seq<Seq<char>>
    decreases s.len(),
{
    if s.len() == 0 {
        Seq::<Seq<char>>::empty()
    } else {
        let rest = dedup_first(s.drop_last());
        if rest.contains(s.last()) {
            rest
        } else {
            rest.push(s.last())
        }
    }
}

proof fn lemma_contains_push(r: Seq<Seq<char>>, y: Seq<char>, x: Seq<char>)
    ensures
        r.push(y).contains(x) <==> (r.contains(x) || x == y),
{
    if r.contains(x) {
        let i = choose|i: int| 0 <= i < r.len() && r[i] == x;
        assert(r.push(y)[i] == x);
    }
    if x == y {
        assert(r.push(y)[r.len() as int] == x);
    }
    if r.push(y).contains(x) {
        let j = choose|j: int| 0 <= j < r.push(y).len() && r.push(y)[j] == x;
        if j < r.len() {
            assert(r[j] == x);
        }
    }
}

proof fn lemma_contains_unlast(s: Seq<Seq<char>>, x: Seq<char>)
    requires
        s.len() > 0,
    ensures
        s.contains(x) <==> (s.drop_last().contains(x) || s.last() == x),
{
    if s.contains(x) {
        let i = choose|i: int| 0 <= i < s.len() && s[i] == x;
        if i < s.len() - 1 {
            assert(s.drop_last()[i] == x);
        }
    }
    if s.drop_last().contains(x) {
        let i = choose|i: int| 0 <= i < s.drop_last().len() && s.drop_last()[i] == x;
        assert(s[i] == x);
    }
    if s.last() == x {
        assert(s[s.len() - 1] == x);
    }
}

/// Deduplication keeps exactly the pieces of the input: nothing new appears
/// and nothing present is lost.
pub proof fn lemma_dedup_first_same_members(s: Seq<Seq<char>>, x: Seq<char>)
    ensures
        dedup_first(s).contains(x) <==> s.contains(x),
    decreases s.len(),
{
    if s.len() > 0 {
        let rest = dedup_first(s.drop_last());
        lemma_dedup_first_same_members(s.drop_last(), x);
        lemma_contains_unlast(s, x);
        if rest.contains(s.last()) {
            if x == s.last() {
                assert(rest.contains(x));
            }
        } else {
            lemma_contains_push(rest, s.last(), x);
        }
    }
}

/// No piece occurs twice after deduplication.
pub proof fn lemma_dedup_first_distinct(s: Seq<Seq<char>>)
    ensures
        forall|i: int, j: int|
            0 <= i < j < dedup_first(s).len() ==> dedup_first(s)[i] != dedup_first(s)[j],
    decreases s.len(),
{
    if s.len() > 0 {
        lemma_dedup_first_distinct(s.drop_last());
        let rest = dedup_first(s.drop_last());
        if !rest.contains(s.last()) {
            assert forall|i: int, j: int|
                0 <= i < j < dedup_first(s).len() implies dedup_first(s)[i] != dedup_first(s)[j] by {
                if j < rest.len() {
                } else {
                    assert(dedup_first(s)[j] == s.last());
                    assert(dedup_first(s)[i] == rest[i]);
                    assert(rest.contains(rest[i]));
                }
            }
        }
    }
}

/// Cuts `s` at every occurrence of `sep`, returning the pieces in order,
/// empty pieces included.
pub fn split_str(s: &str, sep: char) -> (parts: Vec<String>)
    ensures
        views_of(parts@) == split_on(s@, sep),
{
    let n: usize = s.unicode_len();
    let mut parts: Vec<String> = Vec::new();
    let mut start: usize = 0;
    let mut i: usize = 0;
    proof {
        assert(views_of(parts@).push(s@.subrange(0, 0)) =~~= split_on(s@.take(0), sep));
    }
    while i < n
        invariant
            n == s@.len(),
            start <= i <= n,
            views_of(parts@).push(s@.subrange(start as int, i as int)) == split_on(
                s@.take(i as int),
                sep,
            ),
        decreases n - i,
    {
        let ghost prev_parts = parts@;
        let ghost prev_start = start as int;
        let c = s.get_char(i);
        if c == sep {
            let piece = s.substring_char(start, i).to_owned();
            parts.push(piece);
            start = i + 1;
        }
        i = i + 1;
        proof {
            let t = s@.take(i as int);
            assert(t.drop_last() =~= s@.take(i - 1));
            assert(t.last() == s@[i - 1]);
            if c == sep {
                assert(views_of(parts@) =~~= views_of(prev_parts).push(
                    s@.subrange(prev_start, i - 1),
                ));
                assert(views_of(parts@).push(s@.subrange(start as int, i as int)) =~~= split_on(
                    t,
                    sep,
                ));
            } else {
                let r = split_on(s@.take(i - 1), sep);
                assert(r.last() == s@.subrange(prev_start, i - 1));
                assert(s@.subrange(prev_start, i - 1).push(s@[i - 1]) =~= s@.subrange(
                    prev_start,
                    i as int,
                ));
                assert(views_of(parts@).push(s@.subrange(start as int, i as int)) =~~= split_on(
                    t,
                    sep,
                ));
            }
        }
    }
    let tail = s.substring_char(start, n).to_owned();
    parts.push(tail);
    proof {
        assert(s@.take(n as int) =~= s@);
        assert(views_of(parts@) =~~= split_on(s@, sep));
    }
    parts
}

/// Says whether some string in `v` has the same characters as `x`.
pub fn contains_string(v: &Vec<String>, x: &String) -> (r: bool)
    ensures
        r == views_of(v@).contains(x@),
{
    let mut j: usize = 0;
    while j < v.len()
        invariant
            j <= v.len(),
            forall|k: int| 0 <= k < j ==> v@[k]@ != x@,
        decreases v.len() - j,
    {
        let entry: &String = &v[j];
        if entry.eq(x) {
            proof {
                assert(views_of(v@)[j as int] == x@);
            }
            return true;
        }
        j = j + 1;
    }
    proof {
        assert forall|k: int| 0 <= k < views_of(v@).len() implies views_of(v@)[k] != x@ by {
            assert(v@[k]@ != x@);
        }
    }
    false
}

} // verus!
