use vstd::prelude::*;

verus! {

use vstd::string::StrSliceExecFns;

/// Index of the first occurrence of `c` in `q`, or `q.len()` when `c` does
/// not occur.
pub open spec fn first_index(q: Seq<char>, c: char) -> int
    decreases q.len(),
{
    if q.len() == 0 {
        0
    } else if q[0] == c {
        0
    } else {
        1 + first_index(q.skip(1), c)
    }
}

pub proof fn lemma_first_index(q: Seq<char>, c: char)
    ensures
        0 <= first_index(q, c) <= q.len(),
        forall|j: int| 0 <= j < first_index(q, c) ==> q[j] != c,
        first_index(q, c) < q.len() ==> q[first_index(q, c)] == c,
    decreases q.len(),
{
    if q.len() == 0 {
    } else if q[0] == c {
    } else {
        lemma_first_index(q.skip(1), c);
        let i = first_index(q, c);
        assert forall|j: int| 0 <= j < i implies q[j] != c by {
            if j > 0 {
                assert(q.skip(1)[j - 1] == q[j]);
            }
        }
        if i < q.len() {
            assert(q.skip(1)[i - 1] == q[i]);
        }
    }
}

pub proof fn lemma_first_index_is(q: Seq<char>, c: char, i: int)
    requires
        0 <= i <= q.len(),
        forall|j: int| 0 <= j < i ==> q[j] != c,
        i < q.len() ==> q[i] == c,
    ensures
        first_index(q, c) == i,
    decreases q.len(),
{
    if q.len() == 0 {
    } else if q[0] == c {
        assert(i == 0);
    } else {
        assert(i != 0);
        assert forall|j: int| 0 <= j < i - 1 implies q.skip(1)[j] != c by {
            assert(q.skip(1)[j] == q[j + 1]);
        }
        if i - 1 < q.skip(1).len() {
            assert(q.skip(1)[i - 1] == q[i]);
        }
        lemma_first_index_is(q.skip(1), c, i - 1);
    }
}

/// Splits one `key=value` segment at its first `=`; a segment without `=` is
/// a key with an empty value.
pub open spec fn pair_of(seg: Seq<char>) -> (Seq<char>, Seq<char>) {
    let j = first_index(seg, '=');
    if j >= seg.len() {
        (seg, Seq::empty())
    } else {
        (seg.take(j), seg.skip(j + 1))
    }
}

/// The pairs one segment contributes: none when it is empty, one otherwise.
pub open spec fn pair_seq(seg: Seq<char>) -> Seq<(Seq<char>, Seq<char>)> {
    if seg.len() == 0 {
        Seq::empty()
    } else {
        seq![pair_of(seg)]
    }
}

/// The key-value pairs of a raw query string, in order: segments separated by
/// `&`, each split at its first `=`. Nothing is percent-decoded here.
pub open spec fn query_pairs(q: Seq<char>) -> Seq<(Seq<char>, Seq<char>)>
    decreases q.len(),
    via query_pairs_decreases
{
    let i = first_index(q, '&');
    if i >= q.len() {
        pair_seq(q)
    } else {
        pair_seq(q.take(i)) + query_pairs(q.skip(i + 1))
    }
}

#[via_fn]
proof fn query_pairs_decreases(q: Seq<char>) {
    lemma_first_index(q, '&');
}

/// The value of the last pair carrying the given key, if any: on duplicate
/// keys the last value wins.
pub open spec fn lookup(pairs: Seq<(Seq<char>, Seq<char>)>, key: Seq<char>) -> Option<Seq<char>>
    decreases pairs.len(),
{
    if pairs.len() == 0 {
        None
    } else if pairs.last().0 == key {
        Some(pairs.last().1)
    } else {
        lookup(pairs.drop_last(), key)
    }
}

/// A segment with no `&` forms a whole query of its own pair.
pub proof fn lemma_query_pairs_single(seg: Seq<char>)
    requires
        !seg.contains('&'),
    ensures
        query_pairs(seg) == pair_seq(seg),
{
    lemma_first_index_is(seg, '&', seg.len() as int);
}

/// Peeling the first `&`-separated segment off a query string.
pub proof fn lemma_query_pairs_cons(seg: Seq<char>, rest: Seq<char>)
    requires
        !seg.contains('&'),
    ensures
        query_pairs(seg + seq!['&'] + rest) == pair_seq(seg) + query_pairs(rest),
{
    let w = seg + seq!['&'] + rest;
    lemma_first_index_is(w, '&', seg.len() as int);
    assert(w.take(seg.len() as int) =~= seg);
    assert(w.skip(seg.len() as int + 1) =~= rest);
}

/// A `key=value` segment splits back into its key and value.
pub proof fn lemma_pair_of_concat(key: Seq<char>, val: Seq<char>)
    requires
        !key.contains('='),
    ensures
        pair_of(key + seq!['='] + val) == (key, val),
{
    let seg = key + seq!['='] + val;
    lemma_first_index_is(seg, '=', key.len() as int);
    assert(seg.take(key.len() as int) =~= key);
    assert(seg.skip(key.len() as int + 1) =~= val);
}

/// Character-by-character string equality.
pub fn str_eq(a: &str, b: &str) -> (r: bool)
    ensures
        r == (a@ == b@),
{
    let n: usize = a.unicode_len();
    let m: usize = b.unicode_len();
    if n != m {
        return false;
    }
    let mut i: usize = 0;
    while i < n
        invariant
            0 <= i <= n,
            n == a@.len(),
            n == b@.len(),
            forall|j: int| 0 <= j < i ==> a@[j] == b@[j],
        decreases n - i,
    {
        if a.get_char(i) != b.get_char(i) {
            return false;
        }
        i += 1;
    }
    proof {
        assert(a@ =~= b@);
    }
    true
}

/// The character index of the first `c` in `s`, or the character length of
/// `s` when `c` does not occur.
fn find_char(s: &str, c: char) -> (i: usize)
    ensures
        i == first_index(s@, c),
        i <= s@.len(),
{
    let n: usize = s.unicode_len();
    let mut i: usize = 0;
    while i < n
        invariant
            0 <= i <= n,
            n == s@.len(),
            forall|j: int| 0 <= j < i ==> s@[j] != c,
        decreases n - i,
    {
        if s.get_char(i) == c {
            proof {
                lemma_first_index_is(s@, c, i as int);
            }
            return i;
        }
        i += 1;
    }
    proof {
        lemma_first_index_is(s@, c, n as int);
    }
    n
}

/// The pairs contributed by one `&`-separated segment.
fn segment_pairs(seg: &str) -> (r: Vec<(String, String)>)
    ensures
        r.deep_view() == pair_seq(seg@),
{
    let mut r: Vec<(String, String)> = Vec::new();
    let n: usize = seg.unicode_len();
    if n == 0 {
        proof {
            assert(r.deep_view() =~= pair_seq(seg@));
        }
        return r;
    }
    let j: usize = find_char(seg, '=');
    if j == n {
        r.push((seg.to_owned(), String::new()));
        proof {
            assert(r.deep_view() =~~= pair_seq(seg@));
        }
    } else {
        let key = seg.substring_char(0, j);
        let val = seg.substring_char(j + 1, n);
        r.push((key.to_owned(), val.to_owned()));
        proof {
            assert(r.deep_view() =~~= pair_seq(seg@));
        }
    }
    r
}

/// Splits a raw query string into its key-value pairs, in order.
pub fn split_query(q: &str) -> (r: Vec<(String, String)>)
    ensures
        r.deep_view() == query_pairs(q@),
    decreases q@.len(),
{
    let n: usize = q.unicode_len();
    let i: usize = find_char(q, '&');
    if i == n {
        let r = segment_pairs(q);
        r
    } else {
        proof {
            lemma_first_index(q@, '&');
        }
        let seg = q.substring_char(0, i);
        let rest = q.substring_char(i + 1, n);
        let mut r = segment_pairs(seg);
        let ghost head = r.deep_view();
        let mut tail = split_query(rest);
        let ghost back = tail.deep_view();
        r.append(&mut tail);
        proof {
            assert(seg@ == q@.take(i as int));
            assert(rest@ == q@.skip(i as int + 1));
            assert(r.deep_view() =~= head + back);
        }
        r
    }
}

/// The value under `key` among the pairs; on duplicate keys the last wins.
pub fn lookup_value(pairs: &Vec<(String, String)>, key: &str) -> (r: Option<String>)
    ensures
        match r {
            Some(v) => lookup(pairs.deep_view(), key@) == Some(v@),
            None => lookup(pairs.deep_view(), key@) is None,
        },
{
    let mut i: usize = pairs.len();
    proof {
        assert(pairs.deep_view().take(i as int) =~= pairs.deep_view());
    }
    while i > 0
        invariant
            0 <= i <= pairs@.len(),
            lookup(pairs.deep_view(), key@) == lookup(pairs.deep_view().take(i as int), key@),
        decreases i,
    {
        i = i - 1;
        let ghost dv = pairs.deep_view();
        let found: bool = str_eq(pairs[i].0.as_str(), key);
        proof {
            assert(dv.take(i as int + 1).last() == dv[i as int]);
            assert(dv.take(i as int + 1).drop_last() =~= dv.take(i as int));
        }
        if found {
            return Some(pairs[i].1.clone());
        }
    }
    proof {
        assert(pairs.deep_view().take(0).len() == 0);
    }
    None
}

} // verus!
