//! Positions of the strings in a list that contain a query as a contiguous
//! run of characters.

use vstd::prelude::*;

verus! {

/// `t` occurs in `s` starting at position `i`.
pub open spec fn occurs_at(s: Seq<char>, t: Seq<char>, i: int) -> bool {
    &&& 0 <= i
    &&& i + t.len() <= s.len()
    &&& s.subrange(i, i + t.len()) == t
}

/// `t` occurs in `s` as a contiguous run of characters.
pub open spec fn seq_contains(s: Seq<char>, t: Seq<char>) -> bool {
    exists|i: int| occurs_at(s, t, i)
}

/// The positions, in increasing order, of the elements of `h` that contain `t`.
pub open spec fn containing_indices(h: Seq<Seq<char>>, t: Seq<char>) -> Seq<nat>
    decreases h.len(),
{
    if h.len() == 0 {
        seq![]
    } else {
        let before = containing_indices(h.drop_last(), t);
        if seq_contains(h.last(), t) {
            before.push((h.len() - 1) as nat)
        } else {
            before
        }
    }
}

/// The characters of each string of `h`.
pub open spec fn char_seqs(h: Seq<&str>) -> Seq<Seq<char>> {
    h.map_values(|s: &str| s@)
}

/// The characters of `s`, one by one.
fn chars_of(s: &str) -> (r: Vec<char>)
    ensures
        r@ == s@,
{
    let n = s.unicode_len();
    let mut r: Vec<char> = Vec::new();
    let mut i: usize = 0;
    while i < n
        invariant
            n == s@.len(),
            i <= n,
            r@ == s@.subrange(0, i as int),
        decreases n - i,
    {
        r.push(s.get_char(i));
        i += 1;
        assert(r@ =~= s@.subrange(0, i as int));
    }
    assert(r@ =~= s@);
    r
}

/// Whether `t` occurs in `s` at position `i`.
fn occurs_at_exec(s: &Vec<char>, t: &Vec<char>, i: usize) -> (r: bool)
    requires
        i + t@.len() <= s@.len(),
    ensures
        r == occurs_at(s@, t@, i as int),
{
    let n = s.len();
    let mut j: usize = 0;
    while j < t.len()
        invariant
            n == s@.len(),
            i + t@.len() <= s@.len(),
            j <= t@.len(),
            forall|k: int| 0 <= k < j ==> s@[i + k] == t@[k],
        decreases t@.len() - j,
    {
        if s[i + j] != t[j] {
            assert(s@.subrange(i as int, i + t@.len())[j as int] != t@[j as int]);
            return false;
        }
        j += 1;
    }
    assert(s@.subrange(i as int, i + t@.len()) =~= t@);
    true
}

/// Whether `t` occurs in `s` as a contiguous run of characters.
fn contains_chars(s: &Vec<char>, t: &Vec<char>) -> (r: bool)
    ensures
        r == seq_contains(s@, t@),
{
    if t.len() > s.len() {
        return false;
    }
    let last = s.len() - t.len();
    let mut i: usize = 0;
    loop
        invariant
            last == s@.len() - t@.len(),
            t@.len() <= s@.len(),
            i <= last,
            forall|k: int| 0 <= k < i ==> !occurs_at(s@, t@, k),
        decreases last - i,
    {
        if occurs_at_exec(s, t, i) {
            return true;
        }
        if i == last {
            return false;
        }
        i += 1;
    }
}

/// The positions, in order, of the strings of `haystack` that contain
/// `needle`. An empty `needle` is contained in every string.
pub fn find_contains(haystack: &Vec<&str>, needle: &str) -> (found: Vec<usize>)
    ensures
        found@.map_values(|i: usize| i as nat) == containing_indices(char_seqs(haystack@), needle@),
{
    let t = chars_of(needle);
    let mut found: Vec<usize> = Vec::new();
    let mut ii: usize = 0;
    while ii < haystack.len()
        invariant
            t@ == needle@,
            ii <= haystack@.len(),
            found@.map_values(|i: usize| i as nat) == containing_indices(
                char_seqs(haystack@.subrange(0, ii as int)),
                needle@,
            ),
        decreases haystack@.len() - ii,
    {
        let s = chars_of(haystack[ii]);
        let hit = contains_chars(&s, &t);
        proof {
            let h = char_seqs(haystack@.subrange(0, ii + 1));
            assert(h.drop_last() =~= char_seqs(haystack@.subrange(0, ii as int)));
            assert(h.last() == haystack@[ii as int]@);
        }
        if hit {
            found.push(ii);
        }
        ii += 1;
        assert(found@.map_values(|i: usize| i as nat) =~= containing_indices(
            char_seqs(haystack@.subrange(0, ii as int)),
            needle@,
        ));
    }
    assert(haystack@.subrange(0, ii as int) =~= haystack@);
    found
}

/// The empty query is contained in every string, so the positions found for
/// it are all positions of the list, in order.
pub proof fn lemma_empty_needle_finds_all(h: Seq<Seq<char>>, t: Seq<char>)
    requires
        t.len() == 0,
    ensures
        containing_indices(h, t) == Seq::new(h.len(), |i: int| i as nat),
    decreases h.len(),
{
    if h.len() > 0 {
        lemma_empty_needle_finds_all(h.drop_last(), t);
        assert(occurs_at(h.last(), t, 0)) by {
            assert(h.last().subrange(0, 0) =~= t);
        }
        assert(containing_indices(h, t) =~= Seq::new(h.len(), |i: int| i as nat));
    }
}

/// Nothing is found in an empty list, whatever the query.
pub proof fn lemma_empty_haystack_finds_none(t: Seq<char>)
    ensures
        containing_indices(Seq::<Seq<char>>::empty(), t) == Seq::<nat>::empty(),
{
}

} // verus!
