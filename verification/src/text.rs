//! Character-sequence utilities shared by the content codec and the
//! invocation extractor: conversions between `&str` and `Vec<char>`,
//! equality, and first-occurrence substring search.

use vstd::prelude::*;

verus! {

use vstd::string::StrSliceExecFns;

/// True when `pat` occurs in `text` starting exactly at index `i`.
pub open spec fn contains_at(text: Seq<char>, pat: Seq<char>, i: int) -> bool {
    &&& 0 <= i
    &&& i + pat.len() <= text.len()
    &&& text.subrange(i, i + pat.len() as int) == pat
}

/// Index of the first occurrence of `pat` in `text` at or after `from`,
/// or `None` when `pat` does not occur there.
pub open spec fn find_first(text: Seq<char>, pat: Seq<char>, from: int) -> Option<int>
    decreases text.len() - from,
{
    if from < 0 || from + pat.len() > text.len() {
        None
    } else if pat.len() == 0 || text.subrange(from, from + pat.len() as int) == pat {
        Some(from)
    } else {
        find_first(text, pat, from + 1)
    }
}

/// `find_first` returns the first occurrence: a hit is an occurrence with
/// none before it (at or after `from`), and a miss means no occurrence at
/// or after `from` at all.
pub proof fn lemma_find_first_characterization(text: Seq<char>, pat: Seq<char>, from: int)
    requires
        0 <= from,
    ensures
        match find_first(text, pat, from) {
            Some(i) => {
                &&& from <= i
                &&& contains_at(text, pat, i)
                &&& forall|j: int| from <= j < i ==> !contains_at(text, pat, j)
            },
            None => forall|j: int| from <= j ==> !contains_at(text, pat, j),
        },
    decreases text.len() - from,
{
    if from + pat.len() > text.len() {
        assert forall|j: int| from <= j implies !contains_at(text, pat, j) by {}
    } else if pat.len() == 0 {
        assert(text.subrange(from, from + pat.len() as int) =~= pat);
    } else if text.subrange(from, from + pat.len() as int) == pat {
    } else {
        lemma_find_first_characterization(text, pat, from + 1);
    }
}

/// An occurrence of a concatenation splits into occurrences of its parts.
pub proof fn lemma_contains_at_concat(s: Seq<char>, a: Seq<char>, b: Seq<char>, i: int)
    requires
        contains_at(s, a + b, i),
    ensures
        contains_at(s, a, i),
        contains_at(s, b, i + a.len()),
{
    let ab = a + b;
    assert(forall|k: int| 0 <= k < ab.len() ==> s[i + k] == #[trigger] ab[k]) by {
        assert(forall|k: int|
            0 <= k < ab.len() ==> #[trigger] s.subrange(i, i + ab.len() as int)[k] == s[i + k]);
    }
    assert forall|k: int| 0 <= k < a.len() implies s.subrange(i, i + a.len() as int)[k] == a[k] by {
        assert(ab[k] == a[k]);
        assert(s[i + k] == ab[k]);
    }
    assert(s.subrange(i, i + a.len() as int) =~= a);
    assert forall|m: int|
        0 <= m < b.len() implies s.subrange(i + a.len(), i + a.len() + b.len() as int)[m]
        == b[m] by {
        let k = a.len() + m;
        assert(ab[k] == b[m]);
        assert(s[i + k] == ab[k]);
        assert(s.subrange(i + a.len(), i + a.len() + b.len() as int)[m] == s[i + a.len() + m]);
    }
    assert(s.subrange(i + a.len(), i + a.len() + b.len() as int) =~= b);
}

/// An index that carries an occurrence with no occurrence before it (at or
/// after `from`) is exactly what `find_first` returns.
pub proof fn lemma_find_first_unique(text: Seq<char>, pat: Seq<char>, from: int, i: int)
    requires
        0 <= from <= i,
        contains_at(text, pat, i),
        forall|j: int| from <= j < i ==> !contains_at(text, pat, j),
    ensures
        find_first(text, pat, from) == Some(i),
    decreases i - from,
{
    if from == i {
        if pat.len() == 0 {
        } else {
            assert(text.subrange(from, from + pat.len() as int) == pat);
        }
    } else {
        assert(!contains_at(text, pat, from));
        if pat.len() == 0 {
            assert(text.subrange(from, from + pat.len() as int) =~= pat);
            assert(contains_at(text, pat, from));
        }
        assert(from + pat.len() <= text.len());
        lemma_find_first_unique(text, pat, from + 1, i);
    }
}

/// Converts a string slice into the vector of its characters.
#[verifier::loop_isolation(false)]
pub fn str_to_chars(s: &str) -> (v: Vec<char>)
    ensures
        v@ == s@,
{
    let n = s.unicode_len();
    let mut v: Vec<char> = Vec::new();
    let mut i: usize = 0;
    while i < n
        invariant
            i <= n,
            n == s@.len(),
            v@ == s@.subrange(0, i as int),
        decreases n - i,
    {
        let c = s.get_char(i);
        v.push(c);
        i = i + 1;
        assert(v@ =~= s@.subrange(0, i as int));
    }
    assert(v@ =~= s@);
    v
}

/// Builds a `String` from a vector of characters.
///
/// Relies on `core::iter::Iterator::collect` into `String`: collecting
/// characters yields the string of exactly those characters in order.
#[verifier::external_body]
pub fn chars_to_string(v: &Vec<char>) -> (s: String)
    ensures
        s@ == v@,
{
    v.iter().collect()
}

/// Appends every character of `s` to `out`.
#[verifier::loop_isolation(false)]
pub fn push_str_chars(out: &mut Vec<char>, s: &str)
    ensures
        final(out)@ == old(out)@ + s@,
{
    let n = s.unicode_len();
    let mut i: usize = 0;
    while i < n
        invariant
            i <= n,
            n == s@.len(),
            out@ == old(out)@ + s@.subrange(0, i as int),
        decreases n - i,
    {
        let c = s.get_char(i);
        out.push(c);
        i = i + 1;
        assert(out@ =~= old(out)@ + s@.subrange(0, i as int));
    }
    assert(out@ =~= old(out)@ + s@);
}

/// Appends every character of `s` to `out`.
#[verifier::loop_isolation(false)]
pub fn push_chars(out: &mut Vec<char>, s: &Vec<char>)
    ensures
        final(out)@ == old(out)@ + s@,
{
    let n = s.len();
    let mut i: usize = 0;
    while i < n
        invariant
            i <= n,
            n == s@.len(),
            out@ == old(out)@ + s@.subrange(0, i as int),
        decreases n - i,
    {
        out.push(s[i]);
        i = i + 1;
        assert(out@ =~= old(out)@ + s@.subrange(0, i as int));
    }
    assert(out@ =~= old(out)@ + s@);
}

/// Equality between a character vector and a string slice.
#[verifier::loop_isolation(false)]
pub fn chars_eq_str(a: &Vec<char>, s: &str) -> (r: bool)
    ensures
        r == (a@ == s@),
{
    let n = s.unicode_len();
    if a.len() != n {
        assert(a@ != s@) by {
            assert(a@.len() != s@.len());
        }
        return false;
    }
    let mut i: usize = 0;
    while i < n
        invariant
            i <= n,
            n == a@.len(),
            n == s@.len(),
            forall|k: int| 0 <= k < i ==> a@[k] == s@[k],
        decreases n - i,
    {
        if a[i] != s.get_char(i) {
            return false;
        }
        i = i + 1;
    }
    assert(a@ =~= s@);
    true
}

/// Copies the characters of `v` between `from` and `to` into a fresh vector.
#[verifier::loop_isolation(false)]
pub fn subrange_vec(v: &Vec<char>, from: usize, to: usize) -> (r: Vec<char>)
    requires
        from <= to <= v@.len(),
    ensures
        r@ == v@.subrange(from as int, to as int),
{
    let mut r: Vec<char> = Vec::new();
    let mut i: usize = from;
    while i < to
        invariant
            from <= i <= to <= v@.len(),
            r@ == v@.subrange(from as int, i as int),
        decreases to - i,
    {
        r.push(v[i]);
        i = i + 1;
        assert(r@ =~= v@.subrange(from as int, i as int));
    }
    r
}

/// Index of the last occurrence of `c` in `s`, or `None` when `c` does not
/// occur.
pub open spec fn last_index_of(s: Seq<char>, c: char) -> Option<int>
    decreases s.len(),
{
    if s.len() == 0 {
        None
    } else if s[s.len() - 1] == c {
        Some(s.len() - 1)
    } else {
        last_index_of(s.drop_last(), c)
    }
}

/// `last_index_of` returns the last occurrence: a hit is an occurrence with
/// none after it, and a miss means no occurrence at all.
pub proof fn lemma_last_index_of_characterization(s: Seq<char>, c: char)
    ensures
        match last_index_of(s, c) {
            Some(i) => {
                &&& 0 <= i < s.len()
                &&& s[i] == c
                &&& forall|j: int| i < j < s.len() ==> s[j] != c
            },
            None => forall|j: int| 0 <= j < s.len() ==> s[j] != c,
        },
    decreases s.len(),
{
    if s.len() == 0 {
    } else if s[s.len() - 1] == c {
    } else {
        let t = s.drop_last();
        lemma_last_index_of_characterization(t, c);
        assert(forall|j: int| 0 <= j < t.len() ==> t[j] == s[j]);
        match last_index_of(t, c) {
            Some(i) => {
                assert forall|j: int| i < j < s.len() implies s[j] != c by {
                    if j < t.len() {
                        assert(t[j] != c);
                    }
                }
            },
            None => {
                assert forall|j: int| 0 <= j < s.len() implies s[j] != c by {
                    if j < t.len() {
                        assert(t[j] != c);
                    }
                }
            },
        }
    }
}

/// Finds the last occurrence of `c` in `v`.
#[verifier::loop_isolation(false)]
pub fn find_last_char(v: &Vec<char>, c: char) -> (r: Option<usize>)
    ensures
        match r {
            Some(i) => last_index_of(v@, c) == Some(i as int),
            None => last_index_of(v@, c) is None,
        },
{
    proof {
        lemma_last_index_of_characterization(v@, c);
    }
    let mut k = v.len();
    while k > 0
        invariant
            k <= v@.len(),
            forall|j: int| k <= j < v@.len() ==> v@[j] != c,
        decreases k,
    {
        k = k - 1;
        if v[k] == c {
            proof {
                match last_index_of(v@, c) {
                    Some(i) => {
                        if i < k as int {
                            assert(v@[k as int] != c);
                        } else if i > k as int {
                            assert(v@[i] != c);
                        }
                    },
                    None => {
                        assert(v@[k as int] != c);
                    },
                }
            }
            return Some(k);
        }
    }
    proof {
        if let Some(i) = last_index_of(v@, c) {
            assert(v@[i] != c);
        }
    }
    None
}

/// Character-wise equality of two string slices.
#[verifier::loop_isolation(false)]
pub fn str_eq(a: &str, b: &str) -> (r: bool)
    ensures
        r == (a@ == b@),
{
    let na = a.unicode_len();
    let nb = b.unicode_len();
    if na != nb {
        assert(a@ != b@) by {
            assert(a@.len() != b@.len());
        }
        return false;
    }
    let mut i: usize = 0;
    while i < na
        invariant
            i <= na,
            na == a@.len(),
            na == b@.len(),
            forall|k: int| 0 <= k < i ==> a@[k] == b@[k],
        decreases na - i,
    {
        if a.get_char(i) != b.get_char(i) {
            return false;
        }
        i = i + 1;
    }
    assert(a@ =~= b@);
    true
}

/// True when `pat` occurs in `text` starting exactly at index `i`.
#[verifier::loop_isolation(false)]
pub fn matches_at(text: &Vec<char>, pat: &Vec<char>, i: usize) -> (r: bool)
    requires
        i + pat@.len() <= text@.len(),
    ensures
        r == contains_at(text@, pat@, i as int),
{
    let tn = text.len();
    let n = pat.len();
    let mut j: usize = 0;
    while j < n
        invariant
            j <= n,
            n == pat@.len(),
            i + n <= text@.len(),
            forall|k: int| 0 <= k < j ==> text@[i + k] == pat@[k],
        decreases n - j,
    {
        if text[i + j] != pat[j] {
            assert(!contains_at(text@, pat@, i as int)) by {
                assert(text@.subrange(i as int, i + pat@.len() as int)[j as int] == text@[i + j]);
            }
            return false;
        }
        j = j + 1;
    }
    assert(text@.subrange(i as int, i + pat@.len() as int) =~= pat@);
    true
}

/// Finds the first occurrence of `pat` in `text` at or after `from`.
#[verifier::loop_isolation(false)]
pub fn find_pattern(text: &Vec<char>, pat: &Vec<char>, from: usize) -> (r: Option<usize>)
    requires
        from <= text@.len(),
    ensures
        match r {
            Some(i) => find_first(text@, pat@, from as int) == Some(i as int),
            None => find_first(text@, pat@, from as int) is None,
        },
{
    if pat.len() == 0 {
        return Some(from);
    }
    if pat.len() > text.len() {
        return None;
    }
    let last = text.len() - pat.len();
    if from > last {
        return None;
    }
    let mut i: usize = from;
    loop
        invariant
            from <= i <= last + 1,
            last == text@.len() - pat@.len(),
            pat@.len() <= text@.len(),
            find_first(text@, pat@, from as int) == find_first(text@, pat@, i as int),
        decreases last + 1 - i,
    {
        if i > last {
            return None;
        }
        if matches_at(text, pat, i) {
            return Some(i);
        }
        assert(find_first(text@, pat@, i as int) == find_first(text@, pat@, i + 1));
        i = i + 1;
    }
}

} // verus!
