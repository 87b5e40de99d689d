//! Character-level helpers on strings.

use vstd::prelude::*;

verus! {

broadcast use vstd::string::axiom_spec_iter;

/// The characters of `s`, in order.
pub fn chars_of(s: &str) -> (r: Vec<char>)
    ensures
        r@ == s@,
{
    let mut v: Vec<char> = Vec::new();
    for c in it: s.chars()
        invariant
            it.seq() == s@,
            v@ == it.seq().take(it.index() as int),
    {
        v.push(c);
    }
    v
}

/// Relies on `String: FromIterator<&char>`: the string holds the given characters in order.
#[verifier::external_body]
pub(crate) fn string_of(v: &Vec<char>) -> (r: String)
    ensures
        r@ == v@,
{
    String::from_iter(v.iter())
}

/// A fixed-format scan of `v` against "`p` then one placeholder": the
/// placeholder takes the rest of the line, which must be non-empty and hold
/// no line break.
pub open spec fn scan_rest(p: Seq<char>, v: Seq<char>) -> Option<Seq<char>> {
    if p.len() < v.len() && v.take(p.len() as int) == p && !v.skip(p.len() as int).contains('\n') {
        Some(v.skip(p.len() as int))
    } else {
        None
    }
}

/// Executes `scan_rest`.
pub fn scan_rest_exec(p: &Vec<char>, v: &str) -> (r: Option<String>)
    ensures
        r is Some <==> scan_rest(p@, v@) is Some,
        r is Some ==> r->0@ == scan_rest(p@, v@)->0,
{
    let cs = chars_of(v);
    if cs.len() <= p.len() {
        return None;
    }
    let mut i: usize = 0;
    while i < p.len()
        invariant
            cs@ == v@,
            p@.len() < cs@.len(),
            i <= p@.len(),
            forall|j: int| 0 <= j < i ==> cs@[j] == p@[j],
        decreases p@.len() - i,
    {
        if cs[i] != p[i] {
            assert(cs@.take(p@.len() as int)[i as int] != p@[i as int]);
            assert(cs@.take(p@.len() as int) != p@);
            return None;
        }
        i = i + 1;
    }
    assert(cs@.take(p@.len() as int) =~= p@);
    let mut rest: Vec<char> = Vec::new();
    let mut k: usize = p.len();
    while k < cs.len()
        invariant
            cs@ == v@,
            cs@.take(p@.len() as int) == p@,
            p@.len() <= k <= cs@.len(),
            rest@ == cs@.subrange(p@.len() as int, k as int),
            !rest@.contains('\n'),
        decreases cs@.len() - k,
    {
        if cs[k] == '\n' {
            let ghost tail = cs@.skip(p@.len() as int);
            assert(tail[k - p@.len()] == '\n');
            assert(tail.contains('\n'));
            return None;
        }
        rest.push(cs[k]);
        proof {
            assert(rest@ =~= cs@.subrange(p@.len() as int, k + 1));
            assert forall|x: int| 0 <= x < rest@.len() implies rest@[x] != '\n' by {
                if x < rest@.len() - 1 {
                    assert(rest@[x] == rest@.drop_last()[x]);
                }
            }
        }
        k = k + 1;
    }
    assert(rest@ =~= cs@.skip(p@.len() as int));
    Some(string_of(&rest))
}

} // verus!
