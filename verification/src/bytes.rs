use vstd::prelude::*;

verus! {

/// The deep view of a byte vector is its ordinary view.
pub broadcast proof fn lemma_vec_u8_deep_view(v: Vec<u8>)
    ensures
        #[trigger] v.deep_view() == v@,
{
    assert(v.deep_view() =~= v@);
}

/// The deep view of a vector of byte vectors has the same length, and holds
/// at each position the view of the byte vector there.
pub broadcast proof fn lemma_vec_vec_u8_deep_view(v: Vec<Vec<u8>>)
    ensures
        (#[trigger] v.deep_view()).len() == v@.len(),
        forall|i: int| 0 <= i < v@.len() ==> #[trigger] v.deep_view()[i] == v@[i]@,
{
    assert forall|i: int| 0 <= i < v@.len() implies #[trigger] v.deep_view()[i] == v@[i]@ by {
        assert(v.deep_view()[i] == v@[i].deep_view());
        lemma_vec_u8_deep_view(v@[i]);
    }
}

/// The reserved suffix appended to a destination entry's name when it is
/// renamed aside before relinking: `.mirage.backup`, as bytes.
pub open spec fn backup_suffix() -> Seq<u8> {
    // ".mirage.backup" in ASCII
    seq![46u8, 109u8, 105u8, 114u8, 97u8, 103u8, 101u8, 46u8, 98u8, 97u8, 99u8, 107u8, 117u8, 112u8]
}

/// The name an existing destination entry is renamed to when it is backed
/// up: its own name with the reserved suffix appended, so `name.ext` becomes
/// `name.ext.mirage.backup` and a name without an extension becomes
/// `name.mirage.backup`.
pub open spec fn backup_name_spec(name: Seq<u8>) -> Seq<u8> {
    name + backup_suffix()
}

/// Copies a byte string.
pub fn copy_bytes(v: &Vec<u8>) -> (r: Vec<u8>)
    ensures
        r@ == v@,
{
    let mut r: Vec<u8> = Vec::new();
    let mut i: usize = 0;
    while i < v.len()
        invariant
            i <= v.len(),
            r@ == v@.subrange(0, i as int),
        decreases v.len() - i,
    {
        r.push(v[i]);
        i = i + 1;
        proof {
            assert(r@ =~= v@.subrange(0, i as int));
        }
    }
    proof {
        assert(v@.subrange(0, v.len() as int) =~= v@);
    }
    r
}

/// Whether two byte strings are equal.
pub fn bytes_eq(a: &Vec<u8>, b: &Vec<u8>) -> (r: bool)
    ensures
        r == (a@ == b@),
{
    if a.len() != b.len() {
        return false;
    }
    let mut i: usize = 0;
    while i < a.len()
        invariant
            i <= a.len(),
            a.len() == b.len(),
            forall|j: int| 0 <= j < i ==> a@[j] == b@[j],
        decreases a.len() - i,
    {
        if a[i] != b[i] {
            return false;
        }
        i = i + 1;
    }
    proof {
        assert(a@ =~= b@);
    }
    true
}

/// The backup name for one entry name: the name with `.mirage.backup`
/// appended.
pub fn backup_file_name(name: &Vec<u8>) -> (r: Vec<u8>)
    ensures
        r@ == backup_name_spec(name@),
{
    let mut r = copy_bytes(name);
    // ".mirage.backup" in ASCII
    r.push(46u8);
    r.push(109u8);
    r.push(105u8);
    r.push(114u8);
    r.push(97u8);
    r.push(103u8);
    r.push(101u8);
    r.push(46u8);
    r.push(98u8);
    r.push(97u8);
    r.push(99u8);
    r.push(107u8);
    r.push(117u8);
    r.push(112u8);
    proof {
        assert(r@ =~= backup_name_spec(name@));
    }
    r
}

} // verus!
