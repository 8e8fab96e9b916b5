//! Which source files extraction looks at: first-party headers only.
use vstd::prelude::*;
use vstd::string::StrSliceExecFns;

verus! {

/// Whether the last component of path `p` has the extension `cpp`: it ends
/// in `.cpp` after a non-empty stem.
pub open spec fn cpp_source(p: Seq<char>) -> bool {
    &&& p.len() >= 5
    &&& p.subrange(p.len() - 4, p.len() as int) == seq!['.', 'c', 'p', 'p']
    &&& p[p.len() - 5] != '/'
}

pub open spec fn thirdparty() -> Seq<char> {
    seq!['t', 'h', 'i', 'r', 'd', 'p', 'a', 'r', 't', 'y']
}

/// Whether `p` has a component `thirdparty` starting at index `i`.
pub open spec fn component_at(p: Seq<char>, i: int) -> bool {
    &&& 0 <= i
    &&& i + 10 <= p.len()
    &&& p.subrange(i, i + 10) == thirdparty()
    &&& (i == 0 || p[i - 1] == '/')
    &&& (i + 10 == p.len() || p[i + 10] == '/')
}

/// Whether a file lies outside the first-party headers: a `.cpp` source, or
/// anything under a `thirdparty` directory.
pub open spec fn vendored(p: Seq<char>) -> bool {
    cpp_source(p) || exists|i: int| component_at(p, i)
}

fn chars_of(s: &String) -> (r: Vec<char>)
    ensures
        r@ == s@,
{
    let t = s.as_str();
    let n = t.unicode_len();
    let mut v: Vec<char> = Vec::new();
    let mut i: usize = 0;
    while i < n
        invariant
            t@ == s@,
            n == s@.len(),
            i <= n,
            v@ == s@.take(i as int),
        decreases n - i,
    {
        v.push(t.get_char(i));
        i = i + 1;
        proof {
            assert(v@ =~= s@.take(i as int));
        }
    }
    proof {
        assert(v@ =~= s@);
    }
    v
}

/// Whether the file at path `p` is left out of extraction.
pub fn is_vendored(p: &String) -> (r: bool)
    ensures
        r == vendored(p@),
{
    let c = chars_of(p);
    let n = c.len();
    if n >= 5 && c[n - 4] == '.' && c[n - 3] == 'c' && c[n - 2] == 'p' && c[n - 1] == 'p' && c[n - 5] != '/' {
        proof {
            assert(p@.subrange(n - 4, n as int) =~= seq!['.', 'c', 'p', 'p']);
        }
        return true;
    }
    let word = ['t', 'h', 'i', 'r', 'd', 'p', 'a', 'r', 't', 'y'];
    let mut i: usize = 0;
    while n >= 10 && i <= n - 10
        invariant
            c@ == p@,
            n == c@.len(),
            !cpp_source(p@),
            word@ == thirdparty(),
            forall|k: int| 0 <= k < i ==> !component_at(p@, k),
        decreases n - i,
    {
        let mut j: usize = 0;
        let mut same = true;
        proof {
            assert(p@.subrange(i as int, i as int) =~= thirdparty().take(0));
        }
        while j < 10
            invariant
                i + 10 <= n,
                c@ == p@,
                n == c@.len(),
                word@ == thirdparty(),
                j <= 10,
                same == (p@.subrange(i as int, i + j) == thirdparty().take(j as int)),
            decreases 10 - j,
        {
            if c[i + j] != word[j] {
                same = false;
            }
            j = j + 1;
            proof {
                let j0 = (j - 1) as int;
                assert(p@.subrange(i as int, i + j0 + 1) =~= p@.subrange(i as int, i + j0).push(p@[i + j0]));
                assert(thirdparty().take(j0 + 1) =~= thirdparty().take(j0).push(thirdparty()[j0]));
                if p@.subrange(i as int, i + j0 + 1) == thirdparty().take(j0 + 1) {
                    assert(p@.subrange(i as int, i + j0 + 1)[j0] == thirdparty().take(j0 + 1)[j0]);
                    assert(p@.subrange(i as int, i + j0) =~= p@.subrange(i as int, i + j0 + 1).drop_last());
                    assert(thirdparty().take(j0) =~= thirdparty().take(j0 + 1).drop_last());
                }
            }
        }
        proof {
            assert(thirdparty().take(10) =~= thirdparty());
        }
        if same && (i == 0 || c[i - 1] == '/') && (i + 10 == n || c[i + 10] == '/') {
            proof {
                assert(component_at(p@, i as int));
            }
            return true;
        }
        i = i + 1;
    }
    proof {
        assert forall|k: int| !component_at(p@, k) by {
            if 0 <= k < i {
            }
        }
    }
    false
}

} // verus!
