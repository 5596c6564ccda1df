//! Literal substring search over character sequences, and the extraction of
//! the text between two markers.

use vstd::prelude::*;

verus! {

/// `pat` occurs in `text` starting at index `at`.
pub open spec fn occurs_at(text: Seq<char>, pat: Seq<char>, at: int) -> bool {
    &&& 0 <= at
    &&& at + pat.len() <= text.len()
    &&& text.subrange(at, at + pat.len()) == pat
}

/// `pat` occurs somewhere in `text`.
pub open spec fn occurs_in(text: Seq<char>, pat: Seq<char>) -> bool {
    exists|at: int| occurs_at(text, pat, at)
}

/// The least index from `from` on at which `pat` occurs in `text`.
pub open spec fn first_occurrence(text: Seq<char>, pat: Seq<char>, from: int) -> Option<int>
    decreases text.len() + 1 - from,
{
    if from < 0 || from + pat.len() > text.len() {
        None
    } else if occurs_at(text, pat, from) {
        Some(from)
    } else {
        first_occurrence(text, pat, from + 1)
    }
}

/// The text strictly between the first `start` in `text` and the first `end`
/// behind it; `None` where either is not found.
pub open spec fn between(text: Seq<char>, start: Seq<char>, end: Seq<char>) -> Option<Seq<char>> {
    match first_occurrence(text, start, 0) {
        None => None,
        Some(a) => match first_occurrence(text, end, a + start.len()) {
            None => None,
            Some(b) => Some(text.subrange(a + start.len(), b)),
        },
    }
}

/// What `first_occurrence` finds is an occurrence, not before `from`, with none
/// between `from` and it.
pub proof fn lemma_first_occurrence_found(text: Seq<char>, pat: Seq<char>, from: int)
    requires
        first_occurrence(text, pat, from) is Some,
    ensures
        from <= first_occurrence(text, pat, from)->0,
        occurs_at(text, pat, first_occurrence(text, pat, from)->0),
        forall|k: int| from <= k < first_occurrence(text, pat, from)->0 ==> !occurs_at(text, pat, k),
    decreases text.len() + 1 - from,
{
    if !occurs_at(text, pat, from) {
        lemma_first_occurrence_found(text, pat, from + 1);
    }
}

/// Where `first_occurrence` finds nothing, `pat` does not occur from `from` on.
pub proof fn lemma_first_occurrence_none(text: Seq<char>, pat: Seq<char>, from: int)
    requires
        0 <= from,
        first_occurrence(text, pat, from) is None,
    ensures
        forall|k: int| from <= k ==> !occurs_at(text, pat, k),
    decreases text.len() + 1 - from,
{
    if from + pat.len() <= text.len() {
        lemma_first_occurrence_none(text, pat, from + 1);
    }
}

/// An occurrence at `at` with none in `from..at` is the one that
/// `first_occurrence` finds.
pub proof fn lemma_first_occurrence_is(text: Seq<char>, pat: Seq<char>, from: int, at: int)
    requires
        0 <= from <= at,
        occurs_at(text, pat, at),
        forall|k: int| from <= k < at ==> !occurs_at(text, pat, k),
    ensures
        first_occurrence(text, pat, from) == Some(at),
    decreases at - from,
{
    if from < at {
        lemma_first_occurrence_is(text, pat, from + 1, at);
    }
}

/// Searching in what is left of `text` behind its first `cut` characters is
/// searching in `text` from `cut` on.
pub proof fn lemma_first_occurrence_skip(text: Seq<char>, pat: Seq<char>, cut: int, from: int)
    requires
        0 <= cut <= text.len(),
        0 <= from,
    ensures
        first_occurrence(text.skip(cut), pat, from) == match first_occurrence(text, pat, cut + from) {
            Some(at) => Some(at - cut),
            None => None,
        },
    decreases text.len() + 1 - cut - from,
{
    let rest = text.skip(cut);
    if from + pat.len() <= rest.len() {
        assert(rest.subrange(from, from + pat.len()) =~= text.subrange(
            cut + from,
            cut + from + pat.len(),
        ));
        if !occurs_at(rest, pat, from) {
            lemma_first_occurrence_skip(text, pat, cut, from + 1);
        }
    }
}

/// Without its opening marker anywhere in the text there is nothing between.
pub proof fn lemma_between_needs_start(text: Seq<char>, start: Seq<char>, end: Seq<char>)
    requires
        !occurs_in(text, start),
    ensures
        between(text, start, end) is None,
{
    if first_occurrence(text, start, 0) is Some {
        lemma_first_occurrence_found(text, start, 0);
    }
}

/// Without its closing marker anywhere in the text there is nothing between.
pub proof fn lemma_between_needs_end(text: Seq<char>, start: Seq<char>, end: Seq<char>)
    requires
        !occurs_in(text, end),
    ensures
        between(text, start, end) is None,
{
    if first_occurrence(text, start, 0) is Some {
        let a = first_occurrence(text, start, 0)->0;
        if first_occurrence(text, end, a + start.len()) is Some {
            lemma_first_occurrence_found(text, end, a + start.len());
        }
    }
}

/// Where the closing marker stands directly behind the first opening marker,
/// what lies between is the empty text.
pub proof fn lemma_between_adjacent(text: Seq<char>, start: Seq<char>, end: Seq<char>)
    requires
        first_occurrence(text, start, 0) is Some,
        occurs_at(text, end, first_occurrence(text, start, 0)->0 + start.len()),
    ensures
        between(text, start, end) == Some(Seq::<char>::empty()),
{
    let a = first_occurrence(text, start, 0)->0;
    lemma_first_occurrence_found(text, start, 0);
    lemma_first_occurrence_is(text, end, a + start.len(), a + start.len());
    assert(text.subrange(a + start.len(), a + start.len()) =~= Seq::<char>::empty());
}

/// The characters of `s`, in order.
pub fn chars_of(s: &str) -> (out: Vec<char>)
    ensures
        out@ == s@,
{
    let mut out: Vec<char> = Vec::new();
    for c in it: s.chars()
        invariant
            it.seq() == s@,
            out@ == s@.take(it.index()),
    {
        out.push(c);
    }
    out
}

/// Whether `a` and `b` hold the same characters.
pub fn same_text(a: &str, b: &str) -> (same: bool)
    ensures
        same == (a@ == b@),
{
    let left = chars_of(a);
    let right = chars_of(b);
    if left.len() != right.len() {
        return false;
    }
    let hit = matches_at(&left, &right, 0);
    assert(left@.subrange(0, left@.len() as int) =~= left@);
    hit
}

/// Whether `pat` occurs in `text` at `at`.
pub fn matches_at(text: &Vec<char>, pat: &Vec<char>, at: usize) -> (hit: bool)
    ensures
        hit == occurs_at(text@, pat@, at as int),
{
    if pat.len() > text.len() || at > text.len() - pat.len() {
        return false;
    }
    let mut j: usize = 0;
    while j < pat.len()
        invariant
            j <= pat.len(),
            at + pat.len() <= text.len(),
            forall|k: int| 0 <= k < j ==> text@[at + k] == pat@[k],
        decreases pat.len() - j,
    {
        if text[at + j] != pat[j] {
            assert(text@.subrange(at as int, at + pat.len())[j as int] == text@[at + j]);
            return false;
        }
        j += 1;
    }
    assert(text@.subrange(at as int, at + pat.len()) =~= pat@);
    true
}

/// The least index from `from` on at which `pat` occurs in `text`.
pub fn find_from(text: &Vec<char>, pat: &Vec<char>, from: usize) -> (found: Option<usize>)
    ensures
        match found {
            Some(at) => first_occurrence(text@, pat@, from as int) == Some(at as int),
            None => first_occurrence(text@, pat@, from as int) is None,
        },
{
    if pat.len() > text.len() || from > text.len() - pat.len() {
        return None;
    }
    let last: usize = text.len() - pat.len();
    let mut at: usize = from;
    loop
        invariant
            from <= at <= last,
            last == text.len() - pat.len(),
            first_occurrence(text@, pat@, from as int) == first_occurrence(text@, pat@, at as int),
        decreases last - at,
    {
        if matches_at(text, pat, at) {
            return Some(at);
        }
        if at == last {
            assert(first_occurrence(text@, pat@, at + 1) is None);
            return None;
        }
        at += 1;
    }
}

/// Whether `pat` occurs somewhere in `text`.
pub fn contains(text: &Vec<char>, pat: &Vec<char>) -> (hit: bool)
    ensures
        hit == occurs_in(text@, pat@),
{
    match find_from(text, pat, 0) {
        Some(at) => {
            proof {
                lemma_first_occurrence_found(text@, pat@, 0);
            }
            true
        },
        None => {
            proof {
                lemma_first_occurrence_none(text@, pat@, 0);
            }
            false
        },
    }
}

/// Where in `text`, from `cut` on, the text between `start` and `end` lies.
pub fn between_range(text: &Vec<char>, cut: usize, start: &Vec<char>, end: &Vec<char>) -> (found: Option<(usize, usize)>)
    requires
        cut <= text.len(),
    ensures
        match found {
            Some((a, b)) => cut <= a <= b <= text.len() && between(text@.skip(cut as int), start@, end@)
                == Some(text@.subrange(a as int, b as int)),
            None => between(text@.skip(cut as int), start@, end@) is None,
        },
{
    proof {
        lemma_first_occurrence_skip(text@, start@, cut as int, 0);
    }
    match find_from(text, start, cut) {
        None => None,
        Some(open) => {
            proof {
                lemma_first_occurrence_found(text@, start@, cut as int);
                lemma_first_occurrence_skip(text@, end@, cut as int, open - cut + start.len());
            }
            let a: usize = open + start.len();
            match find_from(text, end, a) {
                None => None,
                Some(b) => {
                    proof {
                        lemma_first_occurrence_found(text@, end@, a as int);
                        assert(text@.skip(cut as int).subrange(a - cut, b - cut) =~= text@.subrange(
                            a as int,
                            b as int,
                        ));
                    }
                    Some((a, b))
                },
            }
        },
    }
}

/// The text strictly between the first `start` in `text` and the first `end`
/// behind it.
pub fn extract_between<'a>(text: &'a str, start: &str, end: &str) -> (found: Option<&'a str>)
    ensures
        match found {
            Some(s) => between(text@, start@, end@) == Some(s@),
            None => between(text@, start@, end@) is None,
        },
{
    let chars = chars_of(text);
    let open = chars_of(start);
    let close = chars_of(end);
    assert(chars@.skip(0) =~= chars@);
    match between_range(&chars, 0, &open, &close) {
        Some((a, b)) => Some(text.substring_char(a, b)),
        None => None,
    }
}

} // verus!
