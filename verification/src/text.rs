//! Character-level helpers on strings, stated over `Seq<char>`.

use vstd::prelude::*;

verus! {

/// `p` stands at position `i` of `s`.
pub open spec fn occurs_at(s: Seq<char>, p: Seq<char>, i: int) -> bool {
    &&& 0 <= i
    &&& i + p.len() <= s.len()
    &&& s.subrange(i, i + p.len()) == p
}

/// `s` begins with `p`.
pub open spec fn starts_with(s: Seq<char>, p: Seq<char>) -> bool {
    occurs_at(s, p, 0)
}

/// `p` occurs somewhere in `s`.
pub open spec fn contains_seq(s: Seq<char>, p: Seq<char>) -> bool {
    exists|i: int| occurs_at(s, p, i)
}

/// `i` is the first position of `p` in `s`.
pub open spec fn is_first_occurrence(s: Seq<char>, p: Seq<char>, i: int) -> bool {
    &&& occurs_at(s, p, i)
    &&& forall|j: int| 0 <= j < i ==> !occurs_at(s, p, j)
}

/// The first position of `p` in `s` (meaningful where `contains_seq(s, p)`).
pub open spec fn first_occurrence(s: Seq<char>, p: Seq<char>) -> int {
    choose|i: int| is_first_occurrence(s, p, i)
}

/// The index of the first `c` in `s`, or `s.len()` where `s` holds no `c`.
pub open spec fn index_of_char(s: Seq<char>, c: char) -> nat
    decreases s.len(),
{
    if s.len() == 0 {
        0
    } else if s[0] == c {
        0
    } else {
        1 + index_of_char(s.drop_first(), c)
    }
}

/// The pieces of `s` between the occurrences of `c`, as `str::split` with a
/// one-character pattern gives them (an empty piece where two `c` touch).
pub open spec fn split_fields(s: Seq<char>, c: char) -> Seq<Seq<char>>
    decreases s.len(),
{
    let i = index_of_char(s, c);
    if i >= s.len() {
        seq![s]
    } else {
        seq![s.take(i as int)] + split_fields(s.skip(i + 1 as int), c)
    }
}

/// What `index_of_char` finds: a `c` (or the end), with no `c` before it.
pub proof fn lemma_index_of_char(s: Seq<char>, c: char)
    ensures
        index_of_char(s, c) <= s.len(),
        index_of_char(s, c) < s.len() ==> s[index_of_char(s, c) as int] == c,
        forall|j: int| 0 <= j < index_of_char(s, c) ==> s[j] != c,
        index_of_char(s, c) < s.len() <==> s.contains(c),
    decreases s.len(),
{
    if s.len() > 0 && s[0] != c {
        let t = s.drop_first();
        lemma_index_of_char(t, c);
        assert forall|j: int| 0 <= j < index_of_char(s, c) implies s[j] != c by {
            if j > 0 {
                assert(s[j] == t[j - 1]);
            }
        }
        if s.contains(c) {
            let k = choose|k: int| 0 <= k < s.len() && s[k] == c;
            assert(t[k - 1] == c);
        }
        if t.contains(c) {
            let k = choose|k: int| 0 <= k < t.len() && t[k] == c;
            assert(s[k + 1] == c);
        }
    } else if s.len() > 0 {
        assert(s.contains(c)) by {
            assert(s[0] == c);
        }
    }
}

/// `index_of_char` is the only index with those properties.
pub proof fn lemma_index_of_char_unique(s: Seq<char>, c: char, r: int)
    requires
        0 <= r <= s.len(),
        r < s.len() ==> s[r] == c,
        forall|j: int| 0 <= j < r ==> s[j] != c,
    ensures
        r == index_of_char(s, c),
{
    lemma_index_of_char(s, c);
    let k = index_of_char(s, c) as int;
    if k < r {
        assert(s[k] != c);
    }
    if r < k {
        assert(s[r] != c);
    }
}

/// Two different first occurrences cannot exist.
pub proof fn lemma_first_occurrence(s: Seq<char>, p: Seq<char>, i: int)
    requires
        is_first_occurrence(s, p, i),
    ensures
        first_occurrence(s, p) == i,
        contains_seq(s, p),
{
    let k = first_occurrence(s, p);
    assert(is_first_occurrence(s, p, k));
    if k < i {
        assert(!occurs_at(s, p, k));
    }
    if i < k {
        assert(!occurs_at(s, p, i));
    }
}

/// The characters of `s`, in order.
pub fn chars_of(s: &str) -> (v: Vec<char>)
    ensures
        v@ == s@,
{
    broadcast use vstd::string::group_string_axioms;

    let mut v: Vec<char> = Vec::new();
    for c in it: s.chars()
        invariant
            v@ == it.seq().take(it.index() as int),
    {
        v.push(c);
    }
    assert(v@ =~= s@);
    v
}

/// The index of the first `c` in `v` at or after `from` (or `v.len()`).
pub fn next_char(v: &Vec<char>, c: char, from: usize) -> (r: usize)
    requires
        from <= v@.len(),
    ensures
        r == from + index_of_char(v@.skip(from as int), c),
        from <= r <= v@.len(),
{
    let mut i = from;
    while i < v.len() && v[i] != c
        invariant
            from <= i <= v@.len(),
            forall|j: int| from <= j < i ==> v@[j] != c,
        decreases v@.len() - i,
    {
        i = i + 1;
    }
    proof {
        let t = v@.skip(from as int);
        assert forall|j: int| 0 <= j < i - from implies t[j] != c by {
            assert(t[j] == v@[from + j]);
        }
        lemma_index_of_char_unique(t, c, i - from);
    }
    i
}

/// Whether `p` stands at position `i` of `v`.
pub fn matches_at(v: &Vec<char>, p: &Vec<char>, i: usize) -> (b: bool)
    ensures
        b == occurs_at(v@, p@, i as int),
{
    if i > v.len() || p.len() > v.len() - i {
        return false;
    }
    let mut k: usize = 0;
    while k < p.len()
        invariant
            i + p@.len() <= v@.len(),
            v@.len() <= usize::MAX,
            k <= p@.len(),
            forall|j: int| 0 <= j < k ==> v@[i + j] == p@[j],
        decreases p@.len() - k,
    {
        if v[i + k] != p[k] {
            assert(v@.subrange(i as int, i + p@.len())[k as int] != p@[k as int]);
            return false;
        }
        k = k + 1;
    }
    assert(v@.subrange(i as int, i + p@.len()) =~= p@);
    true
}

/// The first position of `p` in `v`, if `p` occurs in `v`.
pub fn find_seq(v: &Vec<char>, p: &Vec<char>) -> (r: Option<usize>)
    ensures
        r is Some <==> contains_seq(v@, p@),
        r matches Some(i) ==> i as int == first_occurrence(v@, p@) && is_first_occurrence(
            v@,
            p@,
            i as int,
        ),
{
    if p.len() > v.len() {
        assert(!contains_seq(v@, p@));
        return None;
    }
    if p.len() == 0 {
        assert(v@.subrange(0, 0) =~= p@);
        assert(is_first_occurrence(v@, p@, 0));
        proof {
            lemma_first_occurrence(v@, p@, 0);
        }
        return Some(0);
    }
    let last = v.len() - p.len();
    let mut i: usize = 0;
    while i <= last
        invariant
            last + p@.len() == v@.len(),
            v@.len() <= usize::MAX,
            p@.len() > 0,
            i <= last + 1,
            forall|j: int| 0 <= j < i ==> !occurs_at(v@, p@, j),
        decreases last + 1 - i,
    {
        if matches_at(v, p, i) {
            proof {
                lemma_first_occurrence(v@, p@, i as int);
            }
            return Some(i);
        }
        i = i + 1;
    }
    assert(!contains_seq(v@, p@)) by {
        if contains_seq(v@, p@) {
            let k = choose|k: int| occurs_at(v@, p@, k);
            assert(k <= last);
        }
    }
    None
}

/// The number of pieces of `v` split at `c`, counted up to four, and the
/// positions of the first two `c` (`v.len()` where there are fewer).
pub fn split_pieces(v: &Vec<char>, c: char) -> (r: (usize, usize, usize))
    ensures
        r.0 == if split_fields(v@, c).len() < 4 {
            split_fields(v@, c).len()
        } else {
            4
        },
        r.0 >= 1,
        r.1 <= r.2 <= v@.len(),
        r.0 == 1 ==> r.1 == v@.len() && r.2 == v@.len(),
        r.0 == 2 ==> r.2 == v@.len(),
        r.0 >= 2 ==> r.1 < r.2 && split_fields(v@, c)[0] == v@.take(r.1 as int)
            && split_fields(v@, c)[1] == v@.subrange(r.1 + 1, r.2 as int),
        r.0 >= 3 ==> r.2 < v@.len(),
        r.0 == 3 ==> split_fields(v@, c)[2] == v@.subrange(r.2 + 1, v@.len() as int),
{
    let ghost s = v@;
    let len = v.len();
    let i1 = next_char(v, c, 0);
    assert(s.skip(0) =~= s);
    if i1 == len {
        assert(split_fields(s, c) == seq![s]);
        return (1, len, len);
    }
    let ghost t1 = s.skip(i1 + 1);
    let i2 = next_char(v, c, i1 + 1);
    if i2 == len {
        assert(split_fields(t1, c) == seq![t1]);
        assert(split_fields(s, c) =~= seq![s.take(i1 as int), t1]);
        assert(t1 =~= s.subrange(i1 + 1, len as int));
        return (2, i1, len);
    }
    let ghost t2 = s.skip(i2 + 1);
    let ghost k = (i2 - i1 - 1) as nat;
    assert(t1.skip(k + 1 as int) =~= t2);
    assert(t1.take(k as int) =~= s.subrange(i1 + 1, i2 as int));
    assert(split_fields(t1, c) == seq![t1.take(k as int)] + split_fields(t2, c));
    assert(split_fields(s, c) == seq![s.take(i1 as int)] + split_fields(t1, c));
    let i3 = next_char(v, c, i2 + 1);
    if i3 == len {
        assert(split_fields(t2, c) == seq![t2]);
        assert(t2 =~= s.subrange(i2 + 1, len as int));
        assert(split_fields(s, c).len() == 3);
        assert(split_fields(s, c)[1] == t1.take(k as int));
        assert(split_fields(s, c)[2] == t2);
        return (3, i1, i2);
    }
    let ghost t3 = s.skip(i3 + 1);
    let ghost m = (i3 - i2 - 1) as nat;
    assert(t2.skip(m + 1 as int) =~= t3);
    assert(split_fields(t2, c) == seq![t2.take(m as int)] + split_fields(t3, c));
    assert(split_fields(s, c).len() >= 4);
    assert(split_fields(s, c)[1] == t1.take(k as int));
    (4, i1, i2)
}

} // verus!
