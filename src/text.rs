use vstd::prelude::*;

verus! {

/// The characters of a text, in order.
pub fn to_chars(s: &str) -> (r: Vec<char>)
    ensures
        r@ == s@,
{
    let mut v: Vec<char> = Vec::new();
    for c in it: s.chars()
        invariant
            v@ == it.seq().take(it.index() as int),
            it.seq() == s@,
    {
        v.push(c);
    }
    v
}

/// Whether `key` stands in `v` at `j`.
pub fn key_matches(v: &Vec<char>, j: usize, key: &Vec<char>) -> (r: bool)
    ensures
        r == (j + key@.len() <= v@.len() && v@.subrange(j as int, j + key@.len()) == key@),
{
    if j > v.len() || key.len() > v.len() - j {
        return false;
    }
    let mut i: usize = 0;
    while i < key.len()
        invariant
            i <= key.len(),
            j + key.len() <= v.len(),
            forall|t: int| 0 <= t < i ==> v@[j + t] == key@[t],
        decreases key.len() - i,
    {
        if v[j + i] != key[i] {
            proof {
                assert(v@.subrange(j as int, j + key@.len())[i as int] != key@[i as int]);
            }
            return false;
        }
        i += 1;
    }
    proof {
        assert(v@.subrange(j as int, j + key@.len()) =~= key@);
    }
    true
}

/// Whether two texts are the same.
pub fn same_text(a: &str, b: &str) -> (r: bool)
    ensures
        r == (a@ == b@),
{
    let x = to_chars(a);
    let y = to_chars(b);
    if x.len() != y.len() {
        return false;
    }
    let mut i: usize = 0;
    while i < x.len()
        invariant
            i <= x@.len(),
            x@ == a@,
            y@ == b@,
            x@.len() == y@.len(),
            forall|t: int| 0 <= t < i ==> x@[t] == y@[t],
        decreases x@.len() - i,
    {
        if x[i] != y[i] {
            proof {
                assert(x@[i as int] != y@[i as int]);
            }
            return false;
        }
        i += 1;
    }
    proof {
        assert(x@ =~= y@);
    }
    true
}

} // verus!
