use vstd::prelude::*;

verus! {

// Character classes and the few text operations that the editor needs on
// texts held as vectors of characters.

pub open spec fn is_newline(c: char) -> bool {
    c == '\n'
}

pub open spec fn is_whitespace(c: char) -> bool {
    c == ' ' || c == '\t' || c == '\n' || c == '\r'
}

pub fn char_is_newline(c: char) -> (r: bool)
    ensures
        r == is_newline(c),
{
    c == '\n'
}

pub fn char_is_whitespace(c: char) -> (r: bool)
    ensures
        r == is_whitespace(c),
{
    c == ' ' || c == '\t' || c == '\n' || c == '\r'
}

/// `pattern` occurs in `text` at `index`.
pub open spec fn matches_at(text: Seq<char>, pattern: Seq<char>, index: int) -> bool {
    0 <= index && index + pattern.len() <= text.len() && text.subrange(index, index + pattern.len())
        == pattern
}

/// `pattern` occurs somewhere in `text`.
pub open spec fn occurs_in(text: Seq<char>, pattern: Seq<char>) -> bool {
    exists|i: int| matches_at(text, pattern, i)
}

/// The positions of a text at which a pattern occurs, in increasing order.
pub open spec fn is_positions(text: Seq<char>, pattern: Seq<char>, positions: Seq<usize>) -> bool {
    &&& forall|k: int| 0 <= k < positions.len() ==> matches_at(text, pattern, #[trigger] positions[k] as int)
    &&& forall|k: int, l: int| 0 <= k < l < positions.len() ==> positions[k] < positions[l]
    &&& forall|i: int| #[trigger] matches_at(text, pattern, i) ==> exists|k: int| 0 <= k < positions.len() && positions[k] == i
}

/// Whether `pattern` occurs in `text` at `index`.
pub fn matches_at_index(text: &Vec<char>, pattern: &Vec<char>, index: usize) -> (r: bool)
    ensures
        r == matches_at(text@, pattern@, index as int),
{
    if pattern.len() > text.len() || index > text.len() - pattern.len() {
        return false;
    }
    let mut k: usize = 0;
    while k < pattern.len()
        invariant
            index + pattern.len() <= text.len(),
            k <= pattern.len(),
            forall|j: int| 0 <= j < k ==> text@[index + j] == pattern@[j],
        decreases pattern.len() - k,
    {
        if text[index + k] != pattern[k] {
            assert(text@.subrange(index as int, index + pattern.len())[k as int] != pattern@[k as int]);
            return false;
        }
        k = k + 1;
    }
    assert(text@.subrange(index as int, index + pattern.len()) =~= pattern@);
    true
}

/// All positions at which `pattern` occurs in `text`, overlapping occurrences
/// included, in increasing order.
pub fn position(text: &Vec<char>, pattern: &Vec<char>) -> (r: Vec<usize>)
    ensures
        is_positions(text@, pattern@, r@),
{
    let mut r: Vec<usize> = Vec::new();
    if pattern.len() > text.len() {
        assert forall|i: int| #[trigger] matches_at(text@, pattern@, i) implies exists|k: int|
            0 <= k < r@.len() && r@[k] == i by {}
        return r;
    }
    let last = text.len() - pattern.len();
    let mut i: usize = 0;
    loop
        invariant_except_break
            forall|k: int| 0 <= k < r@.len() ==> #[trigger] r@[k] < i,
            forall|j: int| 0 <= j < i && #[trigger] matches_at(text@, pattern@, j) ==> exists|k: int|
                0 <= k < r@.len() && r@[k] == j,
        invariant
            last == text.len() - pattern.len(),
            i <= last,
            forall|k: int| 0 <= k < r@.len() ==> matches_at(text@, pattern@, #[trigger] r@[k] as int),
            forall|k: int, l: int| 0 <= k < l < r@.len() ==> r@[k] < r@[l],
        ensures
            forall|k: int| 0 <= k < r@.len() ==> matches_at(text@, pattern@, #[trigger] r@[k] as int),
            forall|k: int, l: int| 0 <= k < l < r@.len() ==> r@[k] < r@[l],
            forall|j: int| 0 <= j <= last && #[trigger] matches_at(text@, pattern@, j) ==> exists|k: int|
                0 <= k < r@.len() && r@[k] == j,
        decreases last - i,
    {
        let ghost prev = r@;
        let found = matches_at_index(text, pattern, i);
        if found {
            r.push(i);
        }
        assert forall|j: int| 0 <= j <= i && #[trigger] matches_at(text@, pattern@, j) implies exists|k: int|
            0 <= k < r@.len() && r@[k] == j by {
            if j < i {
                let k = choose|k: int| 0 <= k < prev.len() && prev[k] == j;
                assert(r@[k] == j);
            } else {
                assert(r@[r@.len() - 1] == j);
            }
        }
        if i == last {
            break;
        }
        i = i + 1;
    }
    r
}

/// The characters of `text` from `start` to `end`, both included.
pub fn slice(text: &Vec<char>, start: usize, end: usize) -> (r: Vec<char>)
    requires
        start <= end < text.len(),
    ensures
        r@ == text@.subrange(start as int, end + 1),
{
    let mut r: Vec<char> = Vec::new();
    let mut i: usize = start;
    while i <= end
        invariant
            start <= i <= end + 1,
            end < text.len(),
            r@ == text@.subrange(start as int, i as int),
        decreases end + 1 - i,
    {
        r.push(text[i]);
        i = i + 1;
        assert(r@ =~= text@.subrange(start as int, i as int));
    }
    r
}

/// Whether `pattern` occurs in `text`.
pub fn contains(text: &Vec<char>, pattern: &Vec<char>) -> (r: bool)
    ensures
        r == occurs_in(text@, pattern@),
{
    let positions = position(text, pattern);
    if positions.len() > 0 {
        assert(matches_at(text@, pattern@, positions@[0] as int));
        true
    } else {
        assert forall|i: int| !matches_at(text@, pattern@, i) by {
            if matches_at(text@, pattern@, i) {
                let k = choose|k: int| 0 <= k < positions@.len() && positions@[k] == i;
            }
        }
        false
    }
}

/// A copy of `text`.
pub fn copy_text(text: &Vec<char>) -> (r: Vec<char>)
    ensures
        r@ == text@,
{
    let mut r: Vec<char> = Vec::new();
    let mut i: usize = 0;
    while i < text.len()
        invariant
            i <= text.len(),
            r@ == text@.take(i as int),
        decreases text.len() - i,
    {
        r.push(text[i]);
        i = i + 1;
        assert(r@ =~= text@.take(i as int));
    }
    assert(text@.take(text.len() as int) =~= text@);
    r
}

/// The characters of `s`.
pub fn chars_of(s: &str) -> (r: Vec<char>)
    ensures
        r@ == s@,
{
    let n = s.unicode_len();
    let mut r: Vec<char> = Vec::new();
    let mut i: usize = 0;
    while i < n
        invariant
            i <= n,
            n == s@.len(),
            r@ == s@.take(i as int),
        decreases n - i,
    {
        r.push(s.get_char(i));
        i = i + 1;
        assert(r@ =~= s@.take(i as int));
    }
    assert(s@.take(n as int) =~= s@);
    r
}

/// Whether `a` and `b` hold the same characters.
pub fn same_text(a: &Vec<char>, b: &Vec<char>) -> (r: bool)
    ensures
        r == (a@ == b@),
{
    if a.len() != b.len() {
        return false;
    }
    let mut i: usize = 0;
    while i < a.len()
        invariant
            i <= a@.len(),
            a@.len() == b@.len(),
            forall|k: int| 0 <= k < i ==> a@[k] == b@[k],
        decreases a.len() - i,
    {
        if a[i] != b[i] {
            return false;
        }
        i = i + 1;
    }
    assert(a@ =~= b@);
    true
}

} // verus!
