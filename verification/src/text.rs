//! Pattern search and splitting over sequences of symbols.
//!
//! The proxy reads two kinds of text: the client's request, held as
//! characters, and the origin's reply, held as bytes. Both are cut up the
//! same way, on fixed separators, so the rules are stated once over
//! `Seq<T>` and the executable search is written once over slices.
use vstd::prelude::*;
use vstd::slice::slice_subrange;
use vstd::slice::slice_to_vec;
use vstd::std_specs::iter::IteratorSpec;

verus! {

/// A unit of text that can be compared at run time: a byte or a character.
pub trait Symbol: Copy {
    fn same(self, other: Self) -> (r: bool)
        ensures
            r == (self == other),
    ;
}

impl Symbol for u8 {
    fn same(self, other: Self) -> (r: bool) {
        self == other
    }
}

impl Symbol for char {
    fn same(self, other: Self) -> (r: bool) {
        self == other
    }
}

/// `pat` stands in `s` at index `i`.
pub open spec fn occurs_at<T>(s: Seq<T>, pat: Seq<T>, i: int) -> bool {
    0 <= i && i + pat.len() <= s.len() && s.subrange(i, i + pat.len()) == pat
}

/// `i` is the leftmost index at which `pat` stands in `s`.
pub open spec fn is_first_match<T>(s: Seq<T>, pat: Seq<T>, i: int) -> bool {
    &&& occurs_at(s, pat, i)
    &&& forall|j: int| 0 <= j < i ==> !occurs_at(s, pat, j)
}

/// The leftmost index at which `pat` stands in `s`, if it stands anywhere.
pub open spec fn first_match<T>(s: Seq<T>, pat: Seq<T>) -> Option<int> {
    if exists|i: int| is_first_match(s, pat, i) {
        Some(choose|i: int| is_first_match(s, pat, i))
    } else {
        None
    }
}

/// The pieces of `s` between the occurrences of `pat`, taken from left to
/// right without overlap. There is always at least one piece, and an empty
/// pattern separates nothing.
///
/// The bounds on the match restate what `first_match` gives; they are
/// written out for the termination check.
pub open spec fn split<T>(s: Seq<T>, pat: Seq<T>) -> Seq<Seq<T>>
    decreases s.len(),
{
    let found = first_match(s, pat);
    if found is Some && pat.len() > 0 && 0 <= found->0 && found->0 + pat.len() <= s.len() {
        seq![s.take(found->0)] + split(s.skip(found->0 + pat.len()), pat)
    } else {
        seq![s]
    }
}

/// `s` holds `pat` somewhere.
pub open spec fn contains_pattern<T>(s: Seq<T>, pat: Seq<T>) -> bool {
    exists|i: int| occurs_at(s, pat, i)
}

/// A leftmost match is the one that `first_match` names.
pub proof fn lemma_first_match_is<T>(s: Seq<T>, pat: Seq<T>, i: int)
    requires
        is_first_match(s, pat, i),
    ensures
        first_match(s, pat) == Some(i),
{
    let k = choose|k: int| is_first_match(s, pat, k);
    assert(is_first_match(s, pat, k));
    if k < i {
        assert(!occurs_at(s, pat, k));
    }
    if i < k {
        assert(!occurs_at(s, pat, i));
    }
}

/// Where `first_match` names an index, that index is a leftmost match.
pub proof fn lemma_first_match_some<T>(s: Seq<T>, pat: Seq<T>)
    requires
        first_match(s, pat) is Some,
    ensures
        is_first_match(s, pat, first_match(s, pat)->0),
{
}

/// Where the pattern stands nowhere, `first_match` names nothing.
pub proof fn lemma_first_match_none<T>(s: Seq<T>, pat: Seq<T>)
    requires
        forall|j: int| !occurs_at(s, pat, j),
    ensures
        first_match(s, pat) is None,
{
}

/// An occurrence at `j` means that some leftmost occurrence exists, at or
/// before `j`.
pub proof fn lemma_occurrence_has_first<T>(s: Seq<T>, pat: Seq<T>, j: int)
    requires
        occurs_at(s, pat, j),
    ensures
        first_match(s, pat) is Some,
        first_match(s, pat)->0 <= j,
    decreases j,
{
    if exists|k: int| 0 <= k < j && occurs_at(s, pat, k) {
        let k = choose|k: int| 0 <= k < j && occurs_at(s, pat, k);
        lemma_occurrence_has_first(s, pat, k);
    } else {
        assert(is_first_match(s, pat, j));
        lemma_first_match_is(s, pat, j);
    }
}

/// Occurrences inside the window `lo..hi` of `s` are the occurrences in `s`
/// that lie wholly inside the window.
pub proof fn lemma_occurs_in_window<T>(s: Seq<T>, pat: Seq<T>, lo: int, hi: int, i: int)
    requires
        0 <= lo <= hi <= s.len(),
    ensures
        occurs_at(s.subrange(lo, hi), pat, i - lo) <==> (lo <= i && i + pat.len() <= hi
            && occurs_at(s, pat, i)),
{
    if lo <= i && i + pat.len() <= hi {
        assert(s.subrange(lo, hi).subrange(i - lo, i - lo + pat.len()) =~= s.subrange(
            i,
            i + pat.len(),
        ));
    }
}

/// No piece of a split holds the separator.
pub proof fn lemma_split_pieces_hold_no_separator<T>(s: Seq<T>, pat: Seq<T>, k: int)
    requires
        pat.len() > 0,
        0 <= k < split(s, pat).len(),
    ensures
        !contains_pattern(split(s, pat)[k], pat),
    decreases s.len(),
{
    let found = first_match(s, pat);
    if found is Some {
        lemma_first_match_some(s, pat);
        let i = found->0;
        let rest = s.skip(i + pat.len());
        if k == 0 {
            let piece = s.take(i);
            assert(split(s, pat)[0] == piece);
            assert forall|j: int| !occurs_at(piece, pat, j) by {
                if occurs_at(piece, pat, j) {
                    assert(piece.subrange(j, j + pat.len()) =~= s.subrange(j, j + pat.len()));
                    assert(occurs_at(s, pat, j));
                }
            }
        } else {
            assert(split(s, pat)[k] == split(rest, pat)[k - 1]);
            lemma_split_pieces_hold_no_separator(rest, pat, k - 1);
        }
    } else {
        assert(split(s, pat)[0] == s);
        assert forall|j: int| !occurs_at(s, pat, j) by {
            if occurs_at(s, pat, j) {
                lemma_occurrence_has_first(s, pat, j);
            }
        }
    }
}

/// Every piece of a split is a window of the text that was split.
pub proof fn lemma_split_piece_is_window<T>(s: Seq<T>, pat: Seq<T>, k: int) -> (bounds: (int, int))
    requires
        0 <= k < split(s, pat).len(),
    ensures
        0 <= bounds.0 <= bounds.1 <= s.len(),
        split(s, pat)[k] == s.subrange(bounds.0, bounds.1),
    decreases s.len(),
{
    let found = first_match(s, pat);
    if found is Some && pat.len() > 0 && 0 <= found->0 && found->0 + pat.len() <= s.len() {
        let i = found->0;
        let rest = s.skip(i + pat.len());
        if k == 0 {
            assert(s.take(i) =~= s.subrange(0, i));
            (0, i)
        } else {
            assert(split(s, pat)[k] == split(rest, pat)[k - 1]);
            let inner = lemma_split_piece_is_window(rest, pat, k - 1);
            assert(rest.subrange(inner.0, inner.1) =~= s.subrange(
                i + pat.len() + inner.0,
                i + pat.len() + inner.1,
            ));
            (i + pat.len() + inner.0, i + pat.len() + inner.1)
        }
    } else {
        assert(s =~= s.subrange(0, s.len() as int));
        (0, s.len() as int)
    }
}

/// A window of a text that does not hold `pat` does not hold it either.
pub proof fn lemma_window_holds_no_more<T>(s: Seq<T>, pat: Seq<T>, lo: int, hi: int)
    requires
        0 <= lo <= hi <= s.len(),
        !contains_pattern(s, pat),
    ensures
        !contains_pattern(s.subrange(lo, hi), pat),
{
    assert forall|j: int| !occurs_at(s.subrange(lo, hi), pat, j) by {
        lemma_occurs_in_window(s, pat, lo, hi, lo + j);
        assert(!occurs_at(s, pat, lo + j));
    }
}

/// A split always yields at least one piece.
pub proof fn lemma_split_nonempty<T>(s: Seq<T>, pat: Seq<T>)
    ensures
        split(s, pat).len() >= 1,
{
}

/// Whether `pat` stands in `s` at index `i`.
pub fn matches_at<T: Symbol>(s: &[T], pat: &[T], i: usize) -> (r: bool)
    requires
        i + pat.len() <= s.len(),
    ensures
        r == occurs_at(s@, pat@, i as int),
{
    let mut k: usize = 0;
    while k < pat.len()
        invariant
            k <= pat.len(),
            i + pat.len() <= s.len(),
            forall|j: int| 0 <= j < k ==> s@[i + j] == pat@[j],
        decreases pat.len() - k,
    {
        if !s[i + k].same(pat[k]) {
            assert(s@.subrange(i as int, i + pat.len())[k as int] == s@[i + k]);
            return false;
        }
        k += 1;
    }
    assert(s@.subrange(i as int, i + pat.len()) =~= pat@);
    true
}

/// Whether two slices hold the same symbols.
pub fn same_symbols<T: Symbol>(a: &[T], b: &[T]) -> (r: bool)
    ensures
        r == (a@ == b@),
{
    if a.len() != b.len() {
        return false;
    }
    let r = matches_at(a, b, 0);
    assert(a@.subrange(0, a@.len() as int) =~= a@);
    r
}

/// The leftmost occurrence of `pat` inside the window `lo..hi` of `s`, as an
/// index into `s`.
pub fn find_in<T: Symbol>(s: &[T], pat: &[T], lo: usize, hi: usize) -> (r: Option<usize>)
    requires
        lo <= hi <= s.len(),
    ensures
        match r {
            Some(i) => lo <= i && i + pat.len() <= hi && first_match(
                s@.subrange(lo as int, hi as int),
                pat@,
            ) == Some(i - lo),
            None => first_match(s@.subrange(lo as int, hi as int), pat@) is None,
        },
{
    let ghost window = s@.subrange(lo as int, hi as int);
    let mut i: usize = lo;
    while pat.len() <= hi - i
        invariant
            lo <= i <= hi <= s.len(),
            window == s@.subrange(lo as int, hi as int),
            forall|j: int| 0 <= j < i - lo ==> !occurs_at(window, pat@, j),
        decreases hi - i,
    {
        let here = matches_at(s, pat, i);
        proof {
            lemma_occurs_in_window(s@, pat@, lo as int, hi as int, i as int);
        }
        if here {
            proof {
                lemma_first_match_is(window, pat@, i - lo);
            }
            return Some(i);
        }
        assert(i < hi) by {
            if pat@.len() == 0 {
                assert(s@.subrange(i as int, i as int) =~= pat@);
            }
        }
        i += 1;
    }
    proof {
        assert forall|j: int| !occurs_at(window, pat@, j) by {
            if occurs_at(window, pat@, j) {
                assert(j < i - lo || j + pat.len() > hi - lo);
            }
        }
        lemma_first_match_none(window, pat@);
    }
    None
}

/// Where the first piece of the window `lo..hi` of `s` ends: at the leftmost
/// occurrence of `pat` in the window, or with the window.
pub fn first_piece_end<T: Symbol>(s: &[T], pat: &[T], lo: usize, hi: usize) -> (end: usize)
    requires
        lo <= hi <= s.len(),
    ensures
        lo <= end <= hi,
        s@.subrange(lo as int, end as int) == split(s@.subrange(lo as int, hi as int), pat@)[0],
{
    let ghost window = s@.subrange(lo as int, hi as int);
    if pat.len() == 0 {
        assert(split(window, pat@) == seq![window]);
        return hi;
    }
    match find_in(s, pat, lo, hi) {
        Some(i) => {
            assert(window.take(i - lo) =~= s@.subrange(lo as int, i as int));
            i
        },
        None => hi,
    }
}

/// The pieces of the window `lo..hi` of `s` between the occurrences of
/// `pat`, each as a pair of bounds into `s`.
pub fn split_ranges<T: Symbol>(s: &[T], pat: &[T], lo: usize, hi: usize) -> (ranges: Vec<
    (usize, usize),
>)
    requires
        lo <= hi <= s.len(),
    ensures
        ranges@.len() == split(s@.subrange(lo as int, hi as int), pat@).len(),
        forall|k: int|
            0 <= k < ranges@.len() ==> {
                &&& lo <= (#[trigger] ranges@[k]).0 <= ranges@[k].1 <= hi
                &&& s@.subrange(ranges@[k].0 as int, ranges@[k].1 as int) == split(
                    s@.subrange(lo as int, hi as int),
                    pat@,
                )[k]
            },
{
    let ghost whole = split(s@.subrange(lo as int, hi as int), pat@);
    let mut ranges: Vec<(usize, usize)> = Vec::new();
    if pat.len() == 0 {
        ranges.push((lo, hi));
        return ranges;
    }
    let mut pos: usize = lo;
    loop
        invariant
            lo <= pos <= hi <= s.len(),
            pat.len() > 0,
            whole == split(s@.subrange(lo as int, hi as int), pat@),
            ranges@.len() < whole.len(),
            forall|k: int|
                0 <= k < ranges@.len() ==> {
                    &&& lo <= (#[trigger] ranges@[k]).0 <= ranges@[k].1 <= hi
                    &&& s@.subrange(ranges@[k].0 as int, ranges@[k].1 as int) == whole[k]
                },
            whole.skip(ranges@.len() as int) == split(s@.subrange(pos as int, hi as int), pat@),
        decreases hi - pos,
    {
        let ghost rest = s@.subrange(pos as int, hi as int);
        let ghost done = ranges@.len() as int;
        match find_in(s, pat, pos, hi) {
            Some(i) => {
                proof {
                    let tail = s@.subrange(i + pat.len(), hi as int);
                    assert(rest.take(i - pos) =~= s@.subrange(pos as int, i as int));
                    assert(rest.skip(i - pos + pat.len()) =~= tail);
                    assert(split(rest, pat@) == seq![rest.take(i - pos)] + split(tail, pat@));
                    assert(whole.skip(done)[0] == whole[done]);
                    assert(whole.skip(done + 1) =~= whole.skip(done).skip(1));
                    assert(whole.skip(done).skip(1) =~= split(tail, pat@));
                }
                ranges.push((pos, i));
                pos = i + pat.len();
            },
            None => {
                proof {
                    assert(split(rest, pat@) == seq![rest]);
                    assert(whole.skip(done)[0] == whole[done]);
                    assert(whole.skip(done).len() == 1);
                }
                ranges.push((pos, hi));
                return ranges;
            },
        }
    }
}

/// The characters of a string, in order.
pub fn chars_of(s: &str) -> (v: Vec<char>)
    ensures
        v@ == s@,
{
    let mut v: Vec<char> = Vec::new();
    for c in it: s.chars()
        invariant
            v@ == it.seq().take(it.index() as int),
    {
        v.push(c);
    }
    v
}

/// A copy of the window `lo..hi` of `s`.
pub fn copy_range<T: Symbol>(s: &[T], lo: usize, hi: usize) -> (v: Vec<T>)
    requires
        lo <= hi <= s.len(),
    ensures
        v@ == s@.subrange(lo as int, hi as int),
{
    slice_to_vec(slice_subrange(s, lo, hi))
}

} // verus!
