//! Character-level string utilities: trimming, equality, substring search
//! and character lookup, each specified over the `Seq<char>` view.

use vstd::prelude::*;
use vstd::string::StrSliceExecFns;

verus! {

/// The whitespace characters that trimming removes.
pub open spec fn is_space_char(c: char) -> bool {
    c == ' ' || c == '\t' || c == '\r' || c == '\n'
}

/// `s` with leading and trailing whitespace removed.
pub open spec fn trim_of(s: Seq<char>) -> Seq<char>
    decreases s.len(),
{
    if s.len() == 0 {
        s
    } else if is_space_char(s[0]) {
        trim_of(s.drop_first())
    } else if is_space_char(s[s.len() - 1]) {
        trim_of(s.drop_last())
    } else {
        s
    }
}

proof fn lemma_all_space_trim_empty(s: Seq<char>)
    requires
        forall|k: int| 0 <= k < s.len() ==> is_space_char(s[k]),
    ensures
        trim_of(s) == Seq::<char>::empty(),
    decreases s.len(),
{
    if s.len() == 0 {
        assert(s =~= Seq::<char>::empty());
    } else {
        lemma_all_space_trim_empty(s.drop_first());
    }
}

proof fn lemma_trim_range(s: Seq<char>, a: int, b: int)
    requires
        0 <= a <= b <= s.len(),
        forall|k: int| 0 <= k < a ==> is_space_char(s[k]),
        forall|k: int| b <= k < s.len() ==> is_space_char(s[k]),
        a == b || (!is_space_char(s[a]) && !is_space_char(s[b - 1])),
    ensures
        trim_of(s) == s.subrange(a, b),
    decreases s.len(),
{
    if a == b {
        lemma_all_space_trim_empty(s);
        assert(s.subrange(a, b) =~= Seq::<char>::empty());
    } else if a > 0 {
        lemma_trim_range(s.drop_first(), a - 1, b - 1);
        assert(s.drop_first().subrange(a - 1, b - 1) =~= s.subrange(a, b));
    } else if b < s.len() {
        lemma_trim_range(s.drop_last(), a, b);
        assert(s.drop_last().subrange(a, b) =~= s.subrange(a, b));
    } else {
        assert(s.subrange(0, s.len() as int) =~= s);
    }
}

/// Whether `c` is one of the whitespace characters that trimming removes.
pub fn is_space(c: char) -> (r: bool)
    ensures
        r == is_space_char(c),
{
    c == ' ' || c == '\t' || c == '\r' || c == '\n'
}

/// `s` with leading and trailing whitespace removed.
pub fn trim_str(s: &str) -> (r: String)
    ensures
        r@ == trim_of(s@),
{
    let n = s.unicode_len();
    let mut a: usize = 0;
    while a < n && is_space(s.get_char(a))
        invariant
            n == s@.len(),
            0 <= a <= n,
            forall|k: int| 0 <= k < a ==> is_space_char(s@[k]),
        decreases n - a,
    {
        a = a + 1;
    }
    let mut b: usize = n;
    while b > a && is_space(s.get_char(b - 1))
        invariant
            n == s@.len(),
            a <= b <= n,
            forall|k: int| b <= k < n ==> is_space_char(s@[k]),
            a < n ==> !is_space_char(s@[a as int]),
        decreases b,
    {
        b = b - 1;
    }
    proof {
        lemma_trim_range(s@, a as int, b as int);
    }
    let sub = s.substring_char(a, b);
    sub.to_owned()
}

/// Whether `needle` occurs in `hay` starting at position `i`.
pub open spec fn match_at(hay: Seq<char>, needle: Seq<char>, i: int) -> bool {
    0 <= i && i + needle.len() <= hay.len() && hay.subrange(i, i + needle.len()) == needle
}

/// Whether `needle` occurs anywhere in `hay` as a contiguous run.
pub open spec fn contains_seq(hay: Seq<char>, needle: Seq<char>) -> bool {
    exists|i: int| match_at(hay, needle, i)
}

/// Substring test: whether `needle@` occurs in `hay@`.
pub fn contains_str(hay: &str, needle: &str) -> (r: bool)
    ensures
        r == contains_seq(hay@, needle@),
{
    let hn = hay.unicode_len();
    let nn = needle.unicode_len();
    if nn > hn {
        proof {
            assert forall|i: int| !match_at(hay@, needle@, i) by {}
        }
        return false;
    }
    let mut i: usize = 0;
    while i <= hn - nn
        invariant
            hn == hay@.len(),
            nn == needle@.len(),
            nn <= hn,
            0 <= i <= hn - nn + 1,
            forall|k: int| 0 <= k < i ==> !match_at(hay@, needle@, k),
        decreases hn - nn - i + 1,
    {
        let mut j: usize = 0;
        while j < nn && hay.get_char(i + j) == needle.get_char(j)
            invariant
                hn == hay@.len(),
                nn == needle@.len(),
                i + nn <= hn,
                0 <= j <= nn,
                forall|k: int| 0 <= k < j ==> hay@[i + k] == needle@[k],
            decreases nn - j,
        {
            j = j + 1;
        }
        if j == nn {
            proof {
                assert(hay@.subrange(i as int, i + nn) =~= needle@);
                assert(match_at(hay@, needle@, i as int));
            }
            return true;
        }
        proof {
            assert(hay@[i + j] != needle@[j as int]);
            assert(!match_at(hay@, needle@, i as int));
        }
        i = i + 1;
    }
    proof {
        assert forall|k: int| !match_at(hay@, needle@, k) by {
            if 0 <= k && k + needle@.len() <= hay@.len() {
                assert(k < i);
            }
        }
    }
    false
}

/// Equality of the character sequences of two string slices.
pub fn str_eq(a: &str, b: &str) -> (r: bool)
    ensures
        r == (a@ == b@),
{
    let an = a.unicode_len();
    let bn = b.unicode_len();
    if an != bn {
        return false;
    }
    let mut i: usize = 0;
    while i < an
        invariant
            an == a@.len(),
            an == b@.len(),
            0 <= i <= an,
            forall|k: int| 0 <= k < i ==> a@[k] == b@[k],
        decreases an - i,
    {
        if a.get_char(i) != b.get_char(i) {
            return false;
        }
        i = i + 1;
    }
    proof {
        assert(a@ =~= b@);
    }
    true
}

/// Whether `p@` is a prefix of `s@`.
pub open spec fn prefix_of(s: Seq<char>, p: Seq<char>) -> bool {
    p.len() <= s.len() && s.subrange(0, p.len() as int) == p
}

/// Prefix test: whether `s@` begins with `p@`.
pub fn starts_with_str(s: &str, p: &str) -> (r: bool)
    ensures
        r == prefix_of(s@, p@),
{
    let sn = s.unicode_len();
    let pn = p.unicode_len();
    if pn > sn {
        return false;
    }
    let mut i: usize = 0;
    while i < pn
        invariant
            sn == s@.len(),
            pn == p@.len(),
            pn <= sn,
            0 <= i <= pn,
            forall|k: int| 0 <= k < i ==> s@[k] == p@[k],
        decreases pn - i,
    {
        if s.get_char(i) != p.get_char(i) {
            proof {
                assert(s@.subrange(0, p@.len() as int)[i as int] == s@[i as int]);
            }
            return false;
        }
        i = i + 1;
    }
    proof {
        assert(s@.subrange(0, p@.len() as int) =~= p@);
    }
    true
}

/// The position of the first occurrence of `c` in `s`, or `s.len()` when
/// `c` does not occur.
pub open spec fn index_of_char(s: Seq<char>, c: char) -> int
    decreases s.len(),
{
    if s.len() == 0 {
        0
    } else if s[0] == c {
        0
    } else {
        1 + index_of_char(s.drop_first(), c)
    }
}

proof fn lemma_index_of_char_from_prefix(s: Seq<char>, c: char, i: int)
    requires
        0 <= i <= s.len(),
        forall|k: int| 0 <= k < i ==> s[k] != c,
        i < s.len() ==> s[i] == c,
    ensures
        index_of_char(s, c) == i,
    decreases s.len(),
{
    if s.len() == 0 {
    } else if i == 0 {
    } else {
        assert(s[0] != c);
        assert forall|k: int| 0 <= k < i - 1 implies s.drop_first()[k] != c by {
            assert(s.drop_first()[k] == s[k + 1]);
        }
        assert(i - 1 < s.drop_first().len() ==> s.drop_first()[i - 1] == c);
        lemma_index_of_char_from_prefix(s.drop_first(), c, i - 1);
    }
}

/// The position of the first occurrence of `c` in `s@`, or the character
/// length of `s` when `c` does not occur.
pub fn find_char(s: &str, c: char) -> (r: usize)
    ensures
        r == index_of_char(s@, c),
        r <= s@.len(),
        r < s@.len() ==> s@[r as int] == c,
        forall|k: int| 0 <= k < r ==> s@[k] != c,
{
    let n = s.unicode_len();
    let mut i: usize = 0;
    while i < n && s.get_char(i) != c
        invariant
            n == s@.len(),
            0 <= i <= n,
            forall|k: int| 0 <= k < i ==> s@[k] != c,
        decreases n - i,
    {
        i = i + 1;
    }
    proof {
        lemma_index_of_char_from_prefix(s@, c, i as int);
    }
    i
}

/// The position of the first occurrence of `sep` in `s`, or `-1` when
/// `sep` does not occur.
pub open spec fn first_match(s: Seq<char>, sep: Seq<char>) -> int
    decreases s.len(),
{
    if match_at(s, sep, 0) {
        0
    } else if s.len() == 0 {
        -1
    } else {
        let r = first_match(s.drop_first(), sep);
        if r < 0 {
            -1
        } else {
            1 + r
        }
    }
}

proof fn lemma_match_at_shift(s: Seq<char>, sep: Seq<char>, k: int)
    requires
        k >= 1,
        s.len() > 0,
    ensures
        match_at(s, sep, k) == match_at(s.drop_first(), sep, k - 1),
{
    if k + sep.len() <= s.len() {
        assert(s.subrange(k, k + sep.len() as int) =~= s.drop_first().subrange(
            k - 1,
            k - 1 + sep.len() as int,
        ));
    }
}

pub proof fn lemma_first_match(s: Seq<char>, sep: Seq<char>)
    ensures
        first_match(s, sep) >= -1,
        first_match(s, sep) >= 0 ==> match_at(s, sep, first_match(s, sep)) && first_match(s, sep)
            + sep.len() <= s.len(),
        first_match(s, sep) >= 0 ==> forall|k: int|
            0 <= k < first_match(s, sep) ==> !match_at(s, sep, k),
        first_match(s, sep) < 0 ==> forall|k: int| !match_at(s, sep, k),
    decreases s.len(),
{
    if match_at(s, sep, 0) {
    } else if s.len() == 0 {
        assert forall|k: int| !match_at(s, sep, k) by {
            if 0 <= k && k + sep.len() <= s.len() {
                assert(k == 0);
            }
        }
    } else {
        lemma_first_match(s.drop_first(), sep);
        let r = first_match(s.drop_first(), sep);
        if r < 0 {
            assert forall|k: int| !match_at(s, sep, k) by {
                if k >= 1 {
                    lemma_match_at_shift(s, sep, k);
                }
            }
        } else {
            lemma_match_at_shift(s, sep, r + 1);
            assert forall|k: int| 0 <= k < first_match(s, sep) implies !match_at(s, sep, k) by {
                if k >= 1 {
                    lemma_match_at_shift(s, sep, k);
                }
            }
        }
    }
}

proof fn lemma_first_match_from_prefix(s: Seq<char>, sep: Seq<char>, i: int)
    requires
        0 <= i,
        forall|k: int| 0 <= k < i ==> !match_at(s, sep, k),
        match_at(s, sep, i),
    ensures
        first_match(s, sep) == i,
    decreases s.len(),
{
    if i == 0 {
    } else {
        assert(!match_at(s, sep, 0));
        assert(s.len() > 0) by {
            assert(i + sep.len() <= s.len());
        }
        assert forall|k: int| 0 <= k < i - 1 implies !match_at(s.drop_first(), sep, k) by {
            lemma_match_at_shift(s, sep, k + 1);
        }
        lemma_match_at_shift(s, sep, i);
        lemma_first_match_from_prefix(s.drop_first(), sep, i - 1);
    }
}

proof fn lemma_first_match_absent(s: Seq<char>, sep: Seq<char>)
    requires
        forall|k: int| 0 <= k <= s.len() - sep.len() ==> !match_at(s, sep, k),
    ensures
        first_match(s, sep) < 0,
{
    lemma_first_match(s, sep);
    if first_match(s, sep) >= 0 {
        assert(!match_at(s, sep, first_match(s, sep)));
    }
}

/// The position of the first occurrence of `needle@` in `hay@`, or
/// `None` when it does not occur.
pub fn find_sub(hay: &str, needle: &str) -> (r: Option<usize>)
    ensures
        match r {
            Some(i) => first_match(hay@, needle@) == i,
            None => first_match(hay@, needle@) < 0,
        },
{
    let hn = hay.unicode_len();
    let nn = needle.unicode_len();
    if nn > hn {
        proof {
            lemma_first_match_absent(hay@, needle@);
        }
        return None;
    }
    let mut i: usize = 0;
    while i <= hn - nn
        invariant
            hn == hay@.len(),
            nn == needle@.len(),
            nn <= hn,
            0 <= i <= hn - nn + 1,
            forall|k: int| 0 <= k < i ==> !match_at(hay@, needle@, k),
        decreases hn - nn - i + 1,
    {
        let mut j: usize = 0;
        while j < nn && hay.get_char(i + j) == needle.get_char(j)
            invariant
                hn == hay@.len(),
                nn == needle@.len(),
                i + nn <= hn,
                0 <= j <= nn,
                forall|k: int| 0 <= k < j ==> hay@[i + k] == needle@[k],
            decreases nn - j,
        {
            j = j + 1;
        }
        if j == nn {
            proof {
                assert(hay@.subrange(i as int, i + nn) =~= needle@);
                lemma_first_match_from_prefix(hay@, needle@, i as int);
            }
            return Some(i);
        }
        proof {
            assert(hay@[i + j] != needle@[j as int]);
            assert(!match_at(hay@, needle@, i as int));
        }
        i = i + 1;
    }
    proof {
        assert forall|k: int| 0 <= k <= hay@.len() - needle@.len() implies !match_at(
            hay@,
            needle@,
            k,
        ) by {
            assert(k < i);
        }
        lemma_first_match_absent(hay@, needle@);
    }
    None
}

/// The position just past the last occurrence of `c` in `s`, or `0` when
/// `c` does not occur.
pub open spec fn end_of_last_char(s: Seq<char>, c: char) -> int
    decreases s.len(),
{
    if s.len() == 0 {
        0
    } else if s[s.len() - 1] == c {
        s.len() as int
    } else {
        end_of_last_char(s.drop_last(), c)
    }
}

proof fn lemma_end_of_last_char_from_suffix(s: Seq<char>, c: char, i: int)
    requires
        0 <= i <= s.len(),
        forall|k: int| i <= k < s.len() ==> s[k] != c,
        i > 0 ==> s[i - 1] == c,
    ensures
        end_of_last_char(s, c) == i,
    decreases s.len(),
{
    if s.len() == 0 {
    } else if i == s.len() {
    } else {
        assert(s[s.len() - 1] != c);
        lemma_end_of_last_char_from_suffix(s.drop_last(), c, i);
    }
}

/// The position just past the last occurrence of `c` in `s@`, or `0` when
/// `c` does not occur.
pub fn find_last_char_end(s: &str, c: char) -> (r: usize)
    ensures
        r == end_of_last_char(s@, c),
        r <= s@.len(),
        r > 0 ==> s@[r - 1] == c,
        forall|k: int| r <= k < s@.len() ==> s@[k] != c,
{
    let n = s.unicode_len();
    let mut i: usize = n;
    while i > 0 && s.get_char(i - 1) != c
        invariant
            n == s@.len(),
            0 <= i <= n,
            forall|k: int| i <= k < n ==> s@[k] != c,
        decreases i,
    {
        i = i - 1;
    }
    proof {
        lemma_end_of_last_char_from_suffix(s@, c, i as int);
    }
    i
}

} // verus!
