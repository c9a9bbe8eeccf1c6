use vstd::prelude::*;

verus! {

// Paths typed into a file dialogue, as characters, with `/` between their
// sections.

/// The number of `/` in `t`.
pub open spec fn slash_count(t: Seq<char>) -> nat
    decreases t.len(),
{
    if t.len() == 0 {
        0
    } else {
        slash_count(t.drop_last()) + if t.last() == '/' {
            1nat
        } else {
            0nat
        }
    }
}

/// The position of the last `/` in `t`.
pub open spec fn last_slash(t: Seq<char>) -> Option<int>
    decreases t.len(),
{
    if t.len() == 0 {
        None
    } else if t.last() == '/' {
        Some(t.len() - 1)
    } else {
        last_slash(t.drop_last())
    }
}

/// `t` up to and with its last `/`, followed by `suffix`; `suffix` alone
/// where `t` has no `/`.
pub open spec fn combined(t: Seq<char>, suffix: Seq<char>) -> Seq<char> {
    match last_slash(t) {
        Some(p) => t.take(p + 1) + suffix,
        None => suffix,
    }
}

/// What follows the last `/` of `t`; all of `t` where it has none.
pub open spec fn last_section(t: Seq<char>) -> Seq<char> {
    match last_slash(t) {
        Some(p) => t.skip(p + 1),
        None => t,
    }
}

pub proof fn lemma_last_slash(t: Seq<char>)
    ensures
        last_slash(t) matches Some(p) ==> 0 <= p < t.len() && t[p] == '/' && forall|i: int| p < i < t.len() ==> t[i] != '/',
        last_slash(t) is None ==> forall|i: int| 0 <= i < t.len() ==> t[i] != '/',
    decreases t.len(),
{
    if t.len() > 0 && t.last() != '/' {
        let d = t.drop_last();
        lemma_last_slash(d);
        assert forall|i: int| 0 <= i < d.len() implies d[i] == t[i] by {}
        if let Some(p) = last_slash(t) {
            assert forall|i: int| p < i < t.len() implies t[i] != '/' by {
                if i < d.len() {
                    assert(d[i] != '/');
                }
            }
        } else {
            assert forall|i: int| 0 <= i < t.len() implies t[i] != '/' by {
                if i < d.len() {
                    assert(d[i] != '/');
                }
            }
        }
    }
}

/// How many `/` there are in `t`.
pub fn count_slashes(t: &Vec<char>) -> (r: usize)
    ensures
        r == slash_count(t@),
{
    let mut count: usize = 0;
    let mut i: usize = 0;
    while i < t.len()
        invariant
            i <= t.len(),
            count <= i,
            count == slash_count(t@.take(i as int)),
        decreases t.len() - i,
    {
        assert(t@.take(i + 1).drop_last() =~= t@.take(i as int));
        if t[i] == '/' {
            count = count + 1;
        }
        i = i + 1;
    }
    assert(t@.take(t.len() as int) =~= t@);
    count
}

/// Where the last `/` of `t` is.
pub fn find_last_slash(t: &Vec<char>) -> (r: Option<usize>)
    ensures
        r matches Some(p) ==> last_slash(t@) == Some(p as int),
        r is None ==> last_slash(t@) is None,
{
    let mut i: usize = t.len();
    assert(t@.take(i as int) =~= t@);
    while i > 0
        invariant
            i <= t.len(),
            last_slash(t@) == last_slash(t@.take(i as int)),
        decreases i,
    {
        assert(t@.take(i as int).drop_last() =~= t@.take(i - 1));
        if t[i - 1] == '/' {
            return Some(i - 1);
        }
        i = i - 1;
    }
    None
}

/// The first `count` characters of `t` followed by `suffix`.
pub fn joined(t: &Vec<char>, count: usize, suffix: &Vec<char>) -> (r: Vec<char>)
    requires
        count <= t.len(),
    ensures
        r@ == t@.take(count as int) + suffix@,
{
    let mut r: Vec<char> = Vec::new();
    let mut i: usize = 0;
    while i < count
        invariant
            i <= count <= t.len(),
            r@ == t@.take(i as int),
        decreases count - i,
    {
        r.push(t[i]);
        i = i + 1;
        assert(r@ =~= t@.take(i as int));
    }
    let mut j: usize = 0;
    while j < suffix.len()
        invariant
            j <= suffix.len(),
            r@ == t@.take(count as int) + suffix@.take(j as int),
        decreases suffix.len() - j,
    {
        r.push(suffix[j]);
        j = j + 1;
        assert(r@ =~= t@.take(count as int) + suffix@.take(j as int));
    }
    assert(suffix@.take(suffix.len() as int) =~= suffix@);
    r
}

/// The characters of `t` from `start` on.
pub fn tail(t: &Vec<char>, start: usize) -> (r: Vec<char>)
    requires
        start <= t.len(),
    ensures
        r@ == t@.skip(start as int),
{
    let mut r: Vec<char> = Vec::new();
    let mut i: usize = start;
    while i < t.len()
        invariant
            start <= i <= t.len(),
            r@ == t@.subrange(start as int, i as int),
        decreases t.len() - i,
    {
        r.push(t[i]);
        i = i + 1;
        assert(r@ =~= t@.subrange(start as int, i as int));
    }
    assert(t@.subrange(start as int, t.len() as int) =~= t@.skip(start as int));
    r
}

} // verus!
