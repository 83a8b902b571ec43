use vstd::prelude::*;

use crate::bytes::{backup_file_name, backup_name_spec, bytes_eq, copy_bytes};

verus! {

broadcast use crate::bytes::lemma_vec_u8_deep_view, crate::bytes::lemma_vec_vec_u8_deep_view;

/// A filesystem path in canonical form: absolute, with every symbolic link
/// and relative segment already resolved. It is held as the sequence of its
/// components (the pieces between separators), root first; the empty
/// sequence stands for the filesystem root itself.
#[derive(Debug, PartialEq, Eq)]
pub struct CanonPath {
    pub components: Vec<Vec<u8>>,
}

impl View for CanonPath {
    type V = Seq<Seq<u8>>;

    open spec fn view(&self) -> Seq<Seq<u8>> {
        self.components.deep_view()
    }
}

/// The sibling path an existing destination item is renamed to when it is
/// backed up: the same parent, with the reserved suffix appended to the
/// final component.
pub open spec fn backup_path_spec(path: Seq<Seq<u8>>) -> Seq<Seq<u8>>
    recommends
        path.len() > 0,
{
    path.drop_last().push(backup_name_spec(path.last()))
}

/// A backup path is a sibling of the path it backs up: it stays in the same
/// parent directory, renaming only the final component.
pub proof fn lemma_backup_path_is_sibling(path: Seq<Seq<u8>>)
    requires
        path.len() > 0,
    ensures
        backup_path_spec(path).len() == path.len(),
        backup_path_spec(path).drop_last() == path.drop_last(),
        backup_path_spec(path).last() == backup_name_spec(path.last()),
{
    assert(backup_path_spec(path).drop_last() =~= path.drop_last());
}

impl CanonPath {
    /// Wraps an already-canonical component list as a path.
    pub fn new(components: Vec<Vec<u8>>) -> (r: CanonPath)
        ensures
            r@ == components.deep_view(),
    {
        CanonPath { components }
    }

    /// Copies the path.
    pub fn clone_path(&self) -> (r: CanonPath)
        ensures
            r@ == self@,
    {
        let mut components: Vec<Vec<u8>> = Vec::new();
        let mut i: usize = 0;
        while i < self.components.len()
            invariant
                i <= self.components.len(),
                self.components.deep_view() == self@,
                components.deep_view() == self@.subrange(0, i as int),
            decreases self.components.len() - i,
        {
            components.push(copy_bytes(&self.components[i]));
            i = i + 1;
            proof {
                assert(components.deep_view() =~= self@.subrange(0, i as int));
            }
        }
        proof {
            assert(self@.subrange(0, self.components.len() as int) =~= self@);
        }
        CanonPath { components }
    }

    /// Extends the path by one more component: the path of a direct child.
    pub fn join(&self, name: &Vec<u8>) -> (r: CanonPath)
        ensures
            r@ == self@.push(name@),
    {
        let mut r = self.clone_path();
        r.components.push(copy_bytes(name));
        proof {
            assert(r@ =~= self@.push(name@));
        }
        r
    }

    /// Extends the path by the given components, in order: the path of an
    /// item that lies that far below this one.
    pub fn append(&self, rest: &Vec<Vec<u8>>) -> (r: CanonPath)
        ensures
            r@ == self@ + rest.deep_view(),
    {
        let mut r = self.clone_path();
        proof {
            assert(r@ =~= self@ + rest.deep_view().subrange(0, 0));
        }
        let mut i: usize = 0;
        while i < rest.len()
            invariant
                i <= rest@.len(),
                r@ == self@ + rest.deep_view().subrange(0, i as int),
            decreases rest.len() - i,
        {
            let ghost prev = r@;
            r.components.push(copy_bytes(&rest[i]));
            proof {
                assert(rest.deep_view()[i as int] == rest@[i as int]@);
                assert(r@ =~= prev.push(rest@[i as int]@));
                assert(prev.push(rest.deep_view()[i as int]) =~= self@
                    + rest.deep_view().subrange(0, i as int + 1));
            }
            i = i + 1;
        }
        proof {
            assert(self@ + rest.deep_view().subrange(0, rest@.len() as int) =~= self@
                + rest.deep_view());
        }
        r
    }

    /// The final component of the path, if any: the entry's own name within
    /// its parent directory. The filesystem root has none.
    pub fn file_name(&self) -> (r: Option<Vec<u8>>)
        ensures
            self@.len() == 0 <==> r is None,
            self@.len() > 0 ==> (r matches Some(name) && name@ == self@.last()),
    {
        if self.components.len() == 0 {
            None
        } else {
            Some(copy_bytes(&self.components[self.components.len() - 1]))
        }
    }

    /// The sibling path this item is renamed to when it is backed up: the
    /// reserved suffix appended to its final component.
    pub fn backup_path(&self) -> (r: CanonPath)
        requires
            self@.len() > 0,
        ensures
            r@ == backup_path_spec(self@),
    {
        let mut r = self.clone_path();
        let last = r.components.pop().unwrap();
        r.components.push(backup_file_name(&last));
        proof {
            assert(r@ =~= backup_path_spec(self@));
        }
        r
    }

    /// Whether `prefix` is an initial segment of this path, and if so the
    /// components that remain after it: the path of this item relative to
    /// `prefix`. `None` when this path is not under `prefix`.
    pub fn strip_prefix(&self, prefix: &CanonPath) -> (r: Option<Vec<Vec<u8>>>)
        ensures
            r is Some <==> (self@.len() >= prefix@.len() && self@.subrange(
                0,
                prefix@.len() as int,
            ) == prefix@),
            r matches Some(rest) ==> rest.deep_view() == self@.subrange(
                prefix@.len() as int,
                self@.len() as int,
            ),
    {
        if self.components.len() < prefix.components.len() {
            return None;
        }
        let mut i: usize = 0;
        while i < prefix.components.len()
            invariant
                i <= prefix@.len() <= self@.len(),
                prefix@.len() == prefix.components.len(),
                self@.len() == self.components.len(),
                forall|j: int| 0 <= j < i ==> self@[j] == prefix@[j],
            decreases prefix.components.len() - i,
        {
            if !bytes_eq(&self.components[i], &prefix.components[i]) {
                proof {
                    assert(self@[i as int] != prefix@[i as int]);
                    assert(self@.subrange(0, prefix@.len() as int)[i as int] == self@[i as int]);
                }
                return None;
            }
            i = i + 1;
        }
        let mut rest: Vec<Vec<u8>> = Vec::new();
        let mut k: usize = prefix.components.len();
        proof {
            assert(self@.subrange(0, prefix@.len() as int) =~= prefix@);
            assert(rest.deep_view() =~= self@.subrange(prefix@.len() as int, k as int));
        }
        while k < self.components.len()
            invariant
                prefix@.len() <= k <= self@.len(),
                self@.len() == self.components.len(),
                prefix@.len() == prefix.components.len(),
                rest.deep_view() == self@.subrange(prefix@.len() as int, k as int),
            decreases self.components.len() - k,
        {
            rest.push(copy_bytes(&self.components[k]));
            k = k + 1;
            proof {
                assert(rest.deep_view() =~= self@.subrange(prefix@.len() as int, k as int));
            }
        }
        Some(rest)
    }
}

} // verus!
