//! Paths: a watched file's path relative to the corpus root, and the output
//! page's path, which mirrors the document's relative path with its
//! extension replaced.

use vstd::prelude::*;
use crate::text::{chars_of, string_of};

verus! {

/// The index of the last `c` in `s`, or -1.
pub open spec fn last_index_of(s: Seq<char>, c: char) -> int
    decreases s.len(),
{
    if s.len() == 0 {
        -1
    } else if s.last() == c {
        s.len() - 1
    } else {
        last_index_of(s.drop_last(), c)
    }
}

proof fn lemma_last_index_range(s: Seq<char>, c: char)
    ensures
        -1 <= last_index_of(s, c) < s.len(),
    decreases s.len(),
{
    if s.len() > 0 {
        lemma_last_index_range(s.drop_last(), c);
    }
}

/// The extension of output pages.
pub open spec fn html_ext() -> Seq<char> {
    seq!['.', 'h', 't', 'm', 'l']
}

/// The output path of the document at relative path `rel`: its last
/// extension (a dot in the last component, not at its start) is replaced by
/// `.html`; a path without one gets `.html` appended.
pub open spec fn output_path_spec(rel: Seq<char>) -> Seq<char> {
    let d = last_index_of(rel, '.');
    if d > last_index_of(rel, '/') + 1 {
        rel.take(d) + html_ext()
    } else {
        rel + html_ext()
    }
}

/// The path `p` relative to the directory `root`: what follows `root` and a
/// `/`, when that is not empty.
pub open spec fn relative_spec(root: Seq<char>, p: Seq<char>) -> Option<Seq<char>> {
    if p.len() > root.len() + 1 && p.take(root.len() as int) == root && p[root.len() as int] == '/' {
        Some(p.skip(root.len() as int + 1))
    } else {
        None
    }
}

/// The index of the last `c` in `s`, if any.
fn last_index(s: &Vec<char>, c: char) -> (r: Option<usize>)
    ensures
        match r {
            Some(i) => i == last_index_of(s@, c) && i < s@.len(),
            None => last_index_of(s@, c) == -1,
        },
{
    let mut k: usize = s.len();
    assert(s@.take(k as int) =~= s@);
    while k > 0
        invariant
            k <= s@.len(),
            last_index_of(s@, c) == last_index_of(s@.take(k as int), c),
        decreases k,
    {
        assert(s@.take(k as int).drop_last() =~= s@.take(k - 1));
        if s[k - 1] == c {
            return Some(k - 1);
        }
        k = k - 1;
    }
    assert(s@.take(0) =~= Seq::<char>::empty());
    None
}

/// The output path of the document at relative path `rel`.
pub fn output_path(rel: &str) -> (r: String)
    ensures
        r@ == output_path_spec(rel@),
{
    let cs = chars_of(rel);
    proof {
        lemma_last_index_range(rel@, '/');
    }
    let end: usize = match last_index(&cs, '.') {
        None => cs.len(),
        Some(d) => match last_index(&cs, '/') {
            None => if d > 0 { d } else { cs.len() },
            Some(sl) => if d > sl && d - sl > 1 { d } else { cs.len() },
        },
    };
    assert(end == if last_index_of(rel@, '.') > last_index_of(rel@, '/') + 1 {
        last_index_of(rel@, '.')
    } else {
        rel@.len() as int
    });
    let mut out: Vec<char> = Vec::new();
    let mut i: usize = 0;
    while i < end
        invariant
            end <= cs@.len(),
            i <= end,
            out@ == cs@.take(i as int),
        decreases end - i,
    {
        out.push(cs[i]);
        assert(out@ =~= cs@.take(i + 1));
        i = i + 1;
    }
    let ghost body = out@;
    out.push('.');
    out.push('h');
    out.push('t');
    out.push('m');
    out.push('l');
    assert(out@ =~= body + html_ext());
    assert(cs@.take(cs@.len() as int) =~= cs@);
    string_of(&out)
}

/// The path `p` relative to the corpus root `root`, if `p` lies under it.
pub fn relative_to(root: &str, p: &str) -> (r: Option<String>)
    ensures
        r is Some <==> relative_spec(root@, p@) is Some,
        r is Some ==> r->0@ == relative_spec(root@, p@)->0,
{
    let rs = chars_of(root);
    let ps = chars_of(p);
    if ps.len() == 0 || ps.len() - 1 <= rs.len() {
        return None;
    }
    let mut i: usize = 0;
    while i < rs.len()
        invariant
            rs@ == root@,
            ps@ == p@,
            rs@.len() + 1 < ps@.len(),
            i <= rs@.len(),
            forall|j: int| 0 <= j < i ==> ps@[j] == rs@[j],
        decreases rs@.len() - i,
    {
        if ps[i] != rs[i] {
            assert(ps@.take(rs@.len() as int)[i as int] != rs@[i as int]);
            assert(ps@.take(rs@.len() as int) != rs@);
            return None;
        }
        i = i + 1;
    }
    assert(ps@.take(rs@.len() as int) =~= rs@);
    if ps[rs.len()] != '/' {
        return None;
    }
    let mut out: Vec<char> = Vec::new();
    let mut k: usize = rs.len() + 1;
    while k < ps.len()
        invariant
            rs@.len() + 1 <= k <= ps@.len(),
            out@ == ps@.subrange(rs@.len() as int + 1, k as int),
        decreases ps@.len() - k,
    {
        out.push(ps[k]);
        assert(out@ =~= ps@.subrange(rs@.len() as int + 1, k + 1));
        k = k + 1;
    }
    assert(out@ =~= ps@.skip(rs@.len() as int + 1));
    Some(string_of(&out))
}

} // verus!
