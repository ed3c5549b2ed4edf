//! Character counting, first-occurrence search and substring search over
//! `&str`, with sequence-level specifications. These are the string
//! primitives that the remapping parser and the config selector are
//! specified and proved against.

use vstd::prelude::*;

verus! {

/// How many times the character `c` occurs in `s`.
pub open spec fn count_char(s: Seq<char>, c: char) -> nat
    decreases s.len(),
{
    if s.len() == 0 {
        0
    } else {
        count_char(s.drop_last(), c) + if s.last() == c {
            1nat
        } else {
            0nat
        }
    }
}

/// `i` is the position of the first occurrence of `c` in `s`.
pub open spec fn is_first_index_of(s: Seq<char>, c: char, i: int) -> bool {
    &&& 0 <= i < s.len()
    &&& s[i] == c
    &&& forall|j: int| 0 <= j < i ==> s[j] != c
}

/// The position of the first occurrence of `c` in `s`; meaningful only when
/// `c` occurs in `s` at all.
pub open spec fn first_index_of(s: Seq<char>, c: char) -> int {
    choose|i: int| is_first_index_of(s, c, i)
}

/// At most one position is the first occurrence, so `first_index_of` agrees
/// with any witness.
pub proof fn lemma_first_index_agrees(s: Seq<char>, c: char, i: int)
    requires
        is_first_index_of(s, c, i),
    ensures
        first_index_of(s, c) == i,
{
    let k = first_index_of(s, c);
    assert(is_first_index_of(s, c, k));
    if k < i {
        assert(s[k] != c);
    } else if i < k {
        assert(s[i] != c);
    }
}

/// Extending a prefix by one character raises the count exactly when that
/// character is `c`.
pub proof fn lemma_count_char_step(s: Seq<char>, c: char, i: int)
    requires
        0 <= i < s.len(),
    ensures
        count_char(s.subrange(0, i + 1), c) == count_char(s.subrange(0, i), c) + if s[i] == c {
            1nat
        } else {
            0nat
        },
{
    let t = s.subrange(0, i + 1);
    assert(t.drop_last() =~= s.subrange(0, i));
    assert(t.last() == s[i]);
}

/// Counting one character.
pub proof fn lemma_count_char_singleton(a: char, c: char)
    ensures
        count_char(seq![a], c) == if a == c {
            1nat
        } else {
            0nat
        },
{
    assert(seq![a].drop_last() =~= Seq::<char>::empty());
    assert(count_char(Seq::<char>::empty(), c) == 0);
}

/// Counting distributes over concatenation.
pub proof fn lemma_count_char_concat(a: Seq<char>, b: Seq<char>, c: char)
    ensures
        count_char(a + b, c) == count_char(a, c) + count_char(b, c),
    decreases b.len(),
{
    if b.len() == 0 {
        assert(a + b =~= a);
    } else {
        lemma_count_char_concat(a, b.drop_last(), c);
        assert((a + b).drop_last() =~= a + b.drop_last());
        assert((a + b).last() == b.last());
    }
}

/// The count is zero exactly when no position holds `c`.
pub proof fn lemma_count_char_zero(s: Seq<char>, c: char)
    ensures
        (count_char(s, c) == 0) <==> (forall|j: int| 0 <= j < s.len() ==> s[j] != c),
    decreases s.len(),
{
    if s.len() > 0 {
        lemma_count_char_zero(s.drop_last(), c);
        assert(forall|j: int| 0 <= j < s.len() - 1 ==> s[j] == s.drop_last()[j]);
        assert(s.last() == s[s.len() - 1]);
    }
}

/// When `c` occurs at all, `first_index_of` really is the position of its
/// first occurrence.
pub proof fn lemma_count_char_pos_first(s: Seq<char>, c: char)
    requires
        count_char(s, c) > 0,
    ensures
        is_first_index_of(s, c, first_index_of(s, c)),
    decreases s.len(),
{
    assert(s.len() > 0);
    if count_char(s.drop_last(), c) > 0 {
        lemma_count_char_pos_first(s.drop_last(), c);
        let i = first_index_of(s.drop_last(), c);
        assert(forall|j: int| 0 <= j < s.len() - 1 ==> s[j] == s.drop_last()[j]);
        assert(is_first_index_of(s, c, i));
    } else {
        lemma_count_char_zero(s.drop_last(), c);
        assert(s.last() == c);
        assert(forall|j: int| 0 <= j < s.len() - 1 ==> s[j] == s.drop_last()[j]);
        assert(is_first_index_of(s, c, s.len() - 1));
    }
}

/// Scans `s` once: how many times `c` occurs, and the position of its first
/// occurrence if it occurs at all.
pub fn count_and_first(s: &str, c: char) -> (r: (usize, Option<usize>))
    ensures
        r.0 == count_char(s@, c),
        match r.1 {
            Some(p) => is_first_index_of(s@, c, p as int),
            None => count_char(s@, c) == 0,
        },
{
    let n = s.unicode_len();
    let mut count: usize = 0;
    let mut first: Option<usize> = None;
    let mut i: usize = 0;
    while i < n
        invariant
            n == s@.len(),
            i <= n,
            count <= i,
            count == count_char(s@.subrange(0, i as int), c),
            match first {
                Some(p) => p < i && is_first_index_of(s@, c, p as int),
                None => forall|j: int| 0 <= j < i ==> s@[j] != c,
            },
        decreases n - i,
    {
        let ch = s.get_char(i);
        proof {
            lemma_count_char_step(s@, c, i as int);
        }
        if ch == c {
            count = count + 1;
            if first.is_none() {
                first = Some(i);
            }
        }
        i = i + 1;
    }
    proof {
        assert(s@.subrange(0, n as int) =~= s@);
        if first is None {
            lemma_count_char_zero(s@, c);
        }
    }
    (count, first)
}

/// `needle` occurs contiguously somewhere in `haystack`.
pub open spec fn contains_seq(haystack: Seq<char>, needle: Seq<char>) -> bool {
    exists|i: int|
        0 <= i && i + needle.len() <= haystack.len() && (#[trigger] haystack.subrange(
            i,
            i + needle.len(),
        )) == needle
}

/// Substring search: whether `needle` occurs contiguously in `haystack`.
pub fn contains_substring(haystack: &str, needle: &str) -> (r: bool)
    ensures
        r == contains_seq(haystack@, needle@),
{
    let hn = haystack.unicode_len();
    let nn = needle.unicode_len();
    if nn > hn {
        return false;
    }
    let mut i: usize = 0;
    while i <= hn - nn
        invariant
            hn == haystack@.len(),
            nn == needle@.len(),
            nn <= hn,
            i <= hn - nn + 1,
            forall|k: int|
                0 <= k < i ==> (#[trigger] haystack@.subrange(k, k + needle@.len() as int))
                    != needle@,
        decreases hn - nn - i + 1,
    {
        let mut j: usize = 0;
        let mut matched = true;
        while j < nn && matched
            invariant
                hn == haystack@.len(),
                nn == needle@.len(),
                i + nn <= hn,
                j <= nn,
                matched ==> forall|l: int| 0 <= l < j ==> haystack@[i + l] == needle@[l],
                !matched ==> exists|l: int|
                    0 <= l < needle@.len() && haystack@[i + l] != needle@[l],
            decreases nn - j + (if matched {
                1int
            } else {
                0int
            }),
        {
            if haystack.get_char(i + j) == needle.get_char(j) {
                j = j + 1;
            } else {
                matched = false;
            }
        }
        if matched {
            proof {
                assert(haystack@.subrange(i as int, i + needle@.len() as int) =~= needle@);
            }
            return true;
        }
        proof {
            let l = choose|l: int|
                0 <= l < needle@.len() && haystack@[i + l] != needle@[l];
            assert(haystack@.subrange(i as int, i + needle@.len() as int)[l] == haystack@[i + l]);
        }
        i = i + 1;
    }
    proof {
        assert forall|k: int| 0 <= k && k + needle@.len() <= haystack@.len() implies (
        #[trigger] haystack@.subrange(k, k + needle@.len() as int)) != needle@ by {
            assert(k < i);
        }
    }
    false
}

} // verus!
