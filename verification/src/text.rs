//! Searching and splitting text, stated over sequences of characters.
//!
//! A pattern occurs in a text at an index when the characters of the text from
//! that index on begin with the pattern. The first and the last occurrence are
//! the ones with the least and the greatest index; splitting at an occurrence
//! gives what stands before it and what stands after it, without the pattern.

use vstd::prelude::*;

verus! {

/// `pat` stands in `s` at index `i`.
pub open spec fn occurs_at(s: Seq<char>, pat: Seq<char>, i: int) -> bool {
    &&& 0 <= i
    &&& i + pat.len() <= s.len()
    &&& s.subrange(i, i + pat.len()) == pat
}

/// `pat` stands somewhere in `s`.
pub open spec fn occurs(s: Seq<char>, pat: Seq<char>) -> bool {
    exists|i: int| occurs_at(s, pat, i)
}

/// `i` is the least index at which `pat` stands in `s`.
pub open spec fn is_first_at(s: Seq<char>, pat: Seq<char>, i: int) -> bool {
    &&& occurs_at(s, pat, i)
    &&& forall|j: int| j < i ==> !occurs_at(s, pat, j)
}

/// `i` is the greatest index at which `pat` stands in `s`.
pub open spec fn is_last_at(s: Seq<char>, pat: Seq<char>, i: int) -> bool {
    &&& occurs_at(s, pat, i)
    &&& forall|j: int| i < j ==> !occurs_at(s, pat, j)
}

/// The least index at which `pat` stands in `s`, where it stands in `s` at all.
pub open spec fn first_at(s: Seq<char>, pat: Seq<char>) -> int {
    choose|i: int| is_first_at(s, pat, i)
}

/// The greatest index at which `pat` stands in `s`, where it stands in `s` at all.
pub open spec fn last_at(s: Seq<char>, pat: Seq<char>) -> int {
    choose|i: int| is_last_at(s, pat, i)
}

/// `s` cut at the first occurrence of `pat`: what stands before it and what
/// stands after it. `None` where `pat` does not occur.
pub open spec fn split_first(s: Seq<char>, pat: Seq<char>) -> Option<(Seq<char>, Seq<char>)> {
    if occurs(s, pat) {
        let i = first_at(s, pat);
        Some((s.take(i), s.skip(i + pat.len())))
    } else {
        None
    }
}

/// `s` cut at the last occurrence of `pat`: what stands before it and what
/// stands after it. `None` where `pat` does not occur.
pub open spec fn split_last(s: Seq<char>, pat: Seq<char>) -> Option<(Seq<char>, Seq<char>)> {
    if occurs(s, pat) {
        let i = last_at(s, pat);
        Some((s.take(i), s.skip(i + pat.len())))
    } else {
        None
    }
}

/// `s` begins with `pat`.
pub open spec fn begins_with(s: Seq<char>, pat: Seq<char>) -> bool {
    occurs_at(s, pat, 0)
}

/// `s` ends with `pat`.
pub open spec fn finishes_with(s: Seq<char>, pat: Seq<char>) -> bool {
    occurs_at(s, pat, s.len() - pat.len())
}

/// `s` without `pat` at its front. `None` where `s` does not begin with `pat`.
pub open spec fn without_prefix(s: Seq<char>, pat: Seq<char>) -> Option<Seq<char>> {
    if begins_with(s, pat) {
        Some(s.skip(pat.len() as int))
    } else {
        None
    }
}

/// `s` without `pat` at its end. `None` where `s` does not end with `pat`.
pub open spec fn without_suffix(s: Seq<char>, pat: Seq<char>) -> Option<Seq<char>> {
    if finishes_with(s, pat) {
        Some(s.take(s.len() - pat.len()))
    } else {
        None
    }
}

/// A pattern stands at `i` just when, character by character, the text at
/// `i + k` is the pattern at `k`.
pub proof fn lemma_occurs_at_chars(s: Seq<char>, pat: Seq<char>, i: int)
    requires
        0 <= i,
        i + pat.len() <= s.len(),
    ensures
        occurs_at(s, pat, i) <==> forall|k: int| 0 <= k < pat.len() ==> s[i + k] == pat[k],
{
    let sub = s.subrange(i, i + pat.len());
    if occurs_at(s, pat, i) {
        assert forall|k: int| 0 <= k < pat.len() implies s[i + k] == pat[k] by {
            assert(sub[k] == s[i + k]);
        }
    }
    if forall|k: int| 0 <= k < pat.len() ==> s[i + k] == pat[k] {
        assert(sub =~= pat);
    }
}

/// There is only one first occurrence.
pub proof fn lemma_first_unique(s: Seq<char>, pat: Seq<char>, i: int)
    requires
        is_first_at(s, pat, i),
    ensures
        occurs(s, pat),
        first_at(s, pat) == i,
{
    let j = first_at(s, pat);
    assert(is_first_at(s, pat, j));
    if j < i {
        assert(!occurs_at(s, pat, j));
    }
    if i < j {
        assert(!occurs_at(s, pat, i));
    }
}

/// There is only one last occurrence.
pub proof fn lemma_last_unique(s: Seq<char>, pat: Seq<char>, i: int)
    requires
        is_last_at(s, pat, i),
    ensures
        occurs(s, pat),
        last_at(s, pat) == i,
{
    let j = last_at(s, pat);
    assert(is_last_at(s, pat, j));
    if j < i {
        assert(!occurs_at(s, pat, i));
    }
    if i < j {
        assert(!occurs_at(s, pat, j));
    }
}

proof fn lemma_first_below(s: Seq<char>, pat: Seq<char>, w: int)
    requires
        occurs_at(s, pat, w),
    ensures
        exists|i: int| is_first_at(s, pat, i),
    decreases w,
{
    if exists|j: int| j < w && occurs_at(s, pat, j) {
        let j = choose|j: int| j < w && occurs_at(s, pat, j);
        lemma_first_below(s, pat, j);
    } else {
        assert(is_first_at(s, pat, w));
    }
}

proof fn lemma_last_above(s: Seq<char>, pat: Seq<char>, w: int)
    requires
        occurs_at(s, pat, w),
    ensures
        exists|i: int| is_last_at(s, pat, i),
    decreases s.len() - w,
{
    if exists|j: int| w < j && occurs_at(s, pat, j) {
        let j = choose|j: int| w < j && occurs_at(s, pat, j);
        lemma_last_above(s, pat, j);
    } else {
        assert(is_last_at(s, pat, w));
    }
}

/// A pattern that occurs has a first occurrence.
pub proof fn lemma_first_exists(s: Seq<char>, pat: Seq<char>)
    requires
        occurs(s, pat),
    ensures
        is_first_at(s, pat, first_at(s, pat)),
{
    let w = choose|i: int| occurs_at(s, pat, i);
    lemma_first_below(s, pat, w);
}

/// A pattern that occurs has a last occurrence.
pub proof fn lemma_last_exists(s: Seq<char>, pat: Seq<char>)
    requires
        occurs(s, pat),
    ensures
        is_last_at(s, pat, last_at(s, pat)),
{
    let w = choose|i: int| occurs_at(s, pat, i);
    lemma_last_above(s, pat, w);
}

/// An occurrence that ends within the front part of a text is an occurrence
/// in the front part.
pub proof fn lemma_occurs_in_front(a: Seq<char>, b: Seq<char>, pat: Seq<char>, i: int)
    requires
        i + pat.len() <= a.len(),
    ensures
        occurs_at(a + b, pat, i) == occurs_at(a, pat, i),
{
    if 0 <= i {
        lemma_occurs_at_chars(a + b, pat, i);
        lemma_occurs_at_chars(a, pat, i);
        if occurs_at(a + b, pat, i) {
            assert forall|k: int| 0 <= k < pat.len() implies a[i + k] == pat[k] by {
                assert((a + b)[i + k] == pat[k]);
            }
        }
        if occurs_at(a, pat, i) {
            assert forall|k: int| 0 <= k < pat.len() implies (a + b)[i + k] == pat[k] by {
                assert(a[i + k] == pat[k]);
            }
        }
    }
}

/// An occurrence that begins within the back part of a text is an occurrence
/// in the back part.
pub proof fn lemma_occurs_in_back(a: Seq<char>, b: Seq<char>, pat: Seq<char>, i: int)
    requires
        a.len() <= i,
    ensures
        occurs_at(a + b, pat, i) == occurs_at(b, pat, i - a.len()),
{
    if i + pat.len() <= a.len() + b.len() {
        let at = i - a.len();
        lemma_occurs_at_chars(a + b, pat, i);
        lemma_occurs_at_chars(b, pat, at);
        if occurs_at(a + b, pat, i) {
            assert forall|k: int| 0 <= k < pat.len() implies b[at + k] == pat[k] by {
                assert((a + b)[i + k] == pat[k]);
            }
        }
        if occurs_at(b, pat, at) {
            assert forall|k: int| 0 <= k < pat.len() implies (a + b)[i + k] == pat[k] by {
                assert(b[at + k] == pat[k]);
            }
        }
    }
}

/// A text cut at an occurrence of a pattern is the part before it, the
/// pattern and the part after it.
pub proof fn lemma_cut_at_occurrence(s: Seq<char>, pat: Seq<char>, i: int)
    requires
        occurs_at(s, pat, i),
    ensures
        s == s.take(i) + pat + s.skip(i + pat.len()),
{
    assert(s =~= s.take(i) + s.subrange(i, i + pat.len()) + s.skip(i + pat.len()));
}

/// Cutting `head + pat + tail` at the first occurrence of `pat` gives `head`
/// and `tail`, where `pat` does not stand in `head + pat` before the end of
/// `head`.
pub proof fn lemma_split_first_of_join(head: Seq<char>, pat: Seq<char>, tail: Seq<char>)
    requires
        is_first_at(head + pat, pat, head.len() as int),
    ensures
        is_first_at(head + pat + tail, pat, head.len() as int),
        split_first(head + pat + tail, pat) == Some((head, tail)),
{
    let s = head + pat + tail;
    let at = head.len() as int;
    lemma_occurs_in_front(head + pat, tail, pat, at);
    assert forall|j: int| j < at implies !occurs_at(s, pat, j) by {
        lemma_occurs_in_front(head + pat, tail, pat, j);
    }
    lemma_first_unique(s, pat, at);
    assert(s.take(at) =~= head);
    assert(s.skip(at + pat.len()) =~= tail);
}

/// Cutting `head + pat + tail` at the last occurrence of `pat` gives `head`
/// and `tail`, where `pat` does not stand in `pat + tail` after its front.
pub proof fn lemma_split_last_of_join(head: Seq<char>, pat: Seq<char>, tail: Seq<char>)
    requires
        is_last_at(pat + tail, pat, 0),
    ensures
        is_last_at(head + pat + tail, pat, head.len() as int),
        split_last(head + pat + tail, pat) == Some((head, tail)),
{
    let s = head + pat + tail;
    let at = head.len() as int;
    assert(s =~= head + (pat + tail));
    lemma_occurs_in_back(head, pat + tail, pat, at);
    assert forall|j: int| at < j implies !occurs_at(s, pat, j) by {
        lemma_occurs_in_back(head, pat + tail, pat, j);
    }
    lemma_last_unique(s, pat, at);
    assert(s.take(at) =~= head);
    assert(s.skip(at + pat.len()) =~= tail);
}

/// What cutting at the last occurrence gives makes up the text again, and
/// the pattern stands last where the front part ends.
pub proof fn lemma_split_last_parts(s: Seq<char>, pat: Seq<char>)
    requires
        split_last(s, pat) is Some,
    ensures
        ({
            let (head, tail) = split_last(s, pat).unwrap();
            &&& s == head + pat + tail
            &&& is_last_at(s, pat, head.len() as int)
            &&& is_last_at(pat + tail, pat, 0)
        }),
{
    lemma_last_exists(s, pat);
    let at = last_at(s, pat);
    lemma_cut_at_occurrence(s, pat, at);
    let (head, tail) = split_last(s, pat).unwrap();
    assert(s =~= head + (pat + tail));
    lemma_occurs_in_back(head, pat + tail, pat, at);
    assert forall|j: int| 0 < j implies !occurs_at(pat + tail, pat, j) by {
        lemma_occurs_in_back(head, pat + tail, pat, at + j);
    }
}

/// A pattern of one character stands first in a text where that character
/// first stands.
pub proof fn lemma_first_of_char(head: Seq<char>, c: char)
    requires
        !head.contains(c),
    ensures
        is_first_at(head + seq![c], seq![c], head.len() as int),
{
    let s = head + seq![c];
    let pat = seq![c];
    lemma_occurs_at_chars(s, pat, head.len() as int);
    assert forall|j: int| j < head.len() implies !occurs_at(s, pat, j) by {
        if 0 <= j {
            lemma_occurs_at_chars(s, pat, j);
            assert(s[j + 0] == head[j]);
            assert(pat[0] == c);
        }
    }
}

/// A text without a character holds no pattern that begins with it.
pub proof fn lemma_no_occurrence_without_char(s: Seq<char>, pat: Seq<char>)
    requires
        pat.len() > 0,
        !s.contains(pat[0]),
    ensures
        !occurs(s, pat),
{
    assert forall|j: int| !occurs_at(s, pat, j) by {
        if occurs_at(s, pat, j) {
            lemma_occurs_at_chars(s, pat, j);
            assert(s[j + 0] == pat[0]);
        }
    }
}

/// The characters of `s`, in order.
pub fn to_chars(s: &str) -> (v: Vec<char>)
    ensures
        v@ == s@,
{
    let mut v: Vec<char> = Vec::new();
    for c in it: s.chars()
        invariant
            it.seq() == s@,
            v@ == s@.take(it.index() as int),
    {
        v.push(c);
        assert(s@.take(it.index() + 1) =~= s@.take(it.index() as int).push(c));
    }
    assert(s@.take(s@.len() as int) =~= s@);
    v
}

/// Whether `pat` stands in `s` at index `i`.
pub fn stands_at(s: &Vec<char>, pat: &Vec<char>, i: usize) -> (b: bool)
    requires
        i + pat.len() <= s.len(),
    ensures
        b == occurs_at(s@, pat@, i as int),
{
    let n: usize = pat.len();
    let mut k: usize = 0;
    while k < n
        invariant
            n == pat.len(),
            i + n <= s.len(),
            k <= n,
            forall|m: int| 0 <= m < k ==> s@[i + m] == pat@[m],
        decreases n - k,
    {
        if s[i + k] != pat[k] {
            proof {
                lemma_occurs_at_chars(s@, pat@, i as int);
            }
            return false;
        }
        k += 1;
    }
    proof {
        lemma_occurs_at_chars(s@, pat@, i as int);
    }
    true
}

/// The index of the first occurrence of `pat` in `s`.
pub fn find_first(s: &Vec<char>, pat: &Vec<char>) -> (r: Option<usize>)
    ensures
        match r {
            Some(i) => is_first_at(s@, pat@, i as int),
            None => !occurs(s@, pat@),
        },
{
    if pat.len() > s.len() {
        return None;
    }
    let end: usize = s.len() - pat.len();
    let mut i: usize = 0;
    loop
        invariant
            end == s.len() - pat.len(),
            i <= end,
            forall|j: int| j < i ==> !occurs_at(s@, pat@, j),
        decreases end - i,
    {
        if stands_at(s, pat, i) {
            return Some(i);
        }
        if i == end {
            return None;
        }
        i += 1;
    }
}

/// The index of the last occurrence of `pat` in `s`.
pub fn find_last(s: &Vec<char>, pat: &Vec<char>) -> (r: Option<usize>)
    ensures
        match r {
            Some(i) => is_last_at(s@, pat@, i as int),
            None => !occurs(s@, pat@),
        },
{
    if pat.len() > s.len() {
        return None;
    }
    let mut i: usize = s.len() - pat.len();
    loop
        invariant
            i + pat.len() <= s.len(),
            forall|j: int| i < j ==> !occurs_at(s@, pat@, j),
        decreases i,
    {
        if stands_at(s, pat, i) {
            return Some(i);
        }
        if i == 0 {
            return None;
        }
        i -= 1;
    }
}

/// Cuts `s` at the first occurrence of `pat`.
pub fn split_once<'a>(s: &'a str, pat: &str) -> (r: Option<(&'a str, &'a str)>)
    ensures
        match r {
            Some((head, tail)) => split_first(s@, pat@) == Some((head@, tail@)),
            None => split_first(s@, pat@) is None,
        },
{
    let text = to_chars(s);
    let word = to_chars(pat);
    match find_first(&text, &word) {
        Some(i) => {
            proof {
                lemma_first_unique(s@, pat@, i as int);
            }
            let len: usize = text.len();
            let head = s.substring_char(0, i);
            let tail = s.substring_char(i + word.len(), len);
            Some((head, tail))
        },
        None => None,
    }
}

/// Cuts `s` at the last occurrence of `pat`.
pub fn rsplit_once<'a>(s: &'a str, pat: &str) -> (r: Option<(&'a str, &'a str)>)
    ensures
        match r {
            Some((head, tail)) => split_last(s@, pat@) == Some((head@, tail@)),
            None => split_last(s@, pat@) is None,
        },
{
    let text = to_chars(s);
    let word = to_chars(pat);
    match find_last(&text, &word) {
        Some(i) => {
            proof {
                lemma_last_unique(s@, pat@, i as int);
            }
            let len: usize = text.len();
            let head = s.substring_char(0, i);
            let tail = s.substring_char(i + word.len(), len);
            Some((head, tail))
        },
        None => None,
    }
}

/// `s` without `pat` at its front, where it begins with `pat`.
pub fn strip_prefix<'a>(s: &'a str, pat: &str) -> (r: Option<&'a str>)
    ensures
        match r {
            Some(rest) => without_prefix(s@, pat@) == Some(rest@),
            None => without_prefix(s@, pat@) is None,
        },
{
    let text = to_chars(s);
    let word = to_chars(pat);
    if word.len() <= text.len() && stands_at(&text, &word, 0) {
        Some(s.substring_char(word.len(), text.len()))
    } else {
        None
    }
}

/// `s` without `pat` at its end, where it ends with `pat`.
pub fn strip_suffix<'a>(s: &'a str, pat: &str) -> (r: Option<&'a str>)
    ensures
        match r {
            Some(rest) => without_suffix(s@, pat@) == Some(rest@),
            None => without_suffix(s@, pat@) is None,
        },
{
    let text = to_chars(s);
    let word = to_chars(pat);
    if word.len() <= text.len() && stands_at(&text, &word, text.len() - word.len()) {
        Some(s.substring_char(0, text.len() - word.len()))
    } else {
        None
    }
}

} // verus!
