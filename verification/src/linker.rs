use vstd::prelude::*;

use crate::error::Error;
use crate::paths::{backup_path_spec, CanonPath};

verus! {

/// What the shell observed about one path: whether it exists and, if it
/// does, its canonical form and whether it is a directory.
#[derive(Debug, PartialEq, Eq)]
pub enum PathInfo {
    /// The path does not exist. Carries the path as the caller gave it.
    Missing { path: Vec<u8> },
    /// The path exists and is not a directory. Canonical form.
    File { path: CanonPath },
    /// The path exists and is a directory. Canonical form.
    Dir { path: CanonPath },
}

/// One link to make: create a symbolic link at `link_path` pointing at
/// `target`.
#[derive(Debug, PartialEq, Eq)]
pub struct LinkStep {
    pub link_path: CanonPath,
    pub target: CanonPath,
}

/// Everything one replication request has to do, in order: each step links
/// one item, resolving any conflict at its link path first, under the one
/// backup policy of the request.
#[derive(Debug, PartialEq, Eq)]
pub struct Plan {
    pub steps: Vec<LinkStep>,
    pub backup: bool,
}

/// How to clear the way for one link: what to do about whatever already
/// stands at the link path.
#[derive(Debug, PartialEq, Eq)]
pub enum ConflictAction {
    /// Nothing stands there; create the link directly.
    Nothing,
    /// Rename the existing item to this sibling backup path, then link.
    RenameTo { backup_path: CanonPath },
    /// Delete the existing item (recursively if it is a directory), then
    /// link.
    Delete,
}

/// Whether `prefix` is an initial segment of `path`.
pub open spec fn is_path_prefix(prefix: Seq<Seq<u8>>, path: Seq<Seq<u8>>) -> bool {
    path.len() >= prefix.len() && path.subrange(0, prefix.len() as int) == prefix
}

/// Where an item enumerated under `source` is linked when replicating into
/// `destination`: the destination followed by the item's path relative to
/// the source.
pub open spec fn child_link_path(
    source: Seq<Seq<u8>>,
    destination: Seq<Seq<u8>>,
    item: Seq<Seq<u8>>,
) -> Seq<Seq<u8>>
    recommends
        is_path_prefix(source, item),
{
    destination + item.subrange(source.len() as int, item.len() as int)
}

/// Every planned link path lies inside the destination directory: whatever a
/// plan renames, deletes or links, it touches only entries under the
/// destination, never the source items themselves.
pub proof fn lemma_child_link_path_in_destination(
    source: Seq<Seq<u8>>,
    destination: Seq<Seq<u8>>,
    item: Seq<Seq<u8>>,
)
    ensures
        is_path_prefix(destination, child_link_path(source, destination, item)),
{
    assert(child_link_path(source, destination, item).subrange(0, destination.len() as int)
        =~= destination);
}

/// The first of the enumerated items, if any, that is not rooted under the
/// source: the one a plan is refused for.
pub open spec fn first_prefix_mismatch(s: Seq<Seq<u8>>, items: Seq<CanonPath>, j: int) -> bool {
    &&& 0 <= j < items.len()
    &&& !is_path_prefix(s, items[j]@)
    &&& forall|k: int| 0 <= k < j ==> is_path_prefix(s, #[trigger] items[k]@)
}

/// Plans one replication request from what the shell observed: the source
/// and destination as validated paths, the source's immediate children when
/// it is a directory (`items` is ignored for a file source), and the backup
/// policy.
///
/// The source must exist and the destination must be an existing directory;
/// a file source is linked under its own name inside the destination, and a
/// directory source has each enumerated child linked at the destination
/// under its path relative to the source. The first child not rooted under
/// the source refuses the whole plan.
pub fn plan_replication(source: PathInfo, dest: PathInfo, items: Vec<CanonPath>, backup: bool) -> (r:
    Result<Plan, Error>)
    ensures
        (source matches PathInfo::Missing { path } ==> r == Err::<Plan, Error>(
            Error::PathNotFound { path },
        )),
        !(source is Missing) ==> (dest matches PathInfo::Missing { path } ==> r == Err::<
            Plan,
            Error,
        >(Error::PathNotFound { path })),
        !(source is Missing) ==> (dest matches PathInfo::File { path } ==> r == Err::<Plan, Error>(
            Error::NotADirectory { path },
        )),
        source matches PathInfo::File { path: s } ==> (dest matches PathInfo::Dir { path: d } ==> {
            &&& s@.len() == 0 ==> r == Err::<Plan, Error>(Error::IncompatiblePaths { source: s })
            &&& s@.len() > 0 ==> (r matches Ok(plan) && {
                &&& plan.backup == backup
                &&& plan.steps@.len() == 1
                &&& plan.steps@[0].link_path@ == d@.push(s@.last())
                &&& plan.steps@[0].target@ == s@
            })
        }),
        source matches PathInfo::Dir { path: s } ==> (dest matches PathInfo::Dir { path: d } ==> {
            &&& ((forall|i: int|
                0 <= i < items@.len() ==> is_path_prefix(s@, #[trigger] items@[i]@)) <==> r is Ok)
            &&& (r matches Ok(plan) ==> {
                &&& plan.backup == backup
                &&& plan.steps@.len() == items@.len()
                &&& forall|i: int|
                    0 <= i < items@.len() ==> (#[trigger] plan.steps@[i]).target@ == items@[i]@
                &&& forall|i: int|
                    0 <= i < items@.len() ==> (#[trigger] plan.steps@[i]).link_path@
                        == child_link_path(s@, d@, items@[i]@)
            })
            &&& (r matches Err(e) ==> (e matches Error::PathPrefixMismatch { item } && exists|
                j: int,
            |
                #[trigger] first_prefix_mismatch(s@, items@, j) && item@ == items@[j]@))
        }),
{
    match source {
        PathInfo::Missing { path } => Err(Error::PathNotFound { path }),
        PathInfo::File { path: s } => match dest {
            PathInfo::Missing { path } => Err(Error::PathNotFound { path }),
            PathInfo::File { path } => Err(Error::NotADirectory { path }),
            PathInfo::Dir { path: d } => plan_file_into_dir(s, d, backup),
        },
        PathInfo::Dir { path: s } => match dest {
            PathInfo::Missing { path } => Err(Error::PathNotFound { path }),
            PathInfo::File { path } => Err(Error::NotADirectory { path }),
            PathInfo::Dir { path: d } => plan_dir_into_dir(s, d, items, backup),
        },
    }
}

/// Plans replicating a single file into a directory: one link, inside the
/// destination under the source's own name, pointing at the source. A source
/// with no final name of its own cannot be linked under one.
fn plan_file_into_dir(s: CanonPath, d: CanonPath, backup: bool) -> (r: Result<Plan, Error>)
    ensures
        s@.len() == 0 ==> r == Err::<Plan, Error>(Error::IncompatiblePaths { source: s }),
        s@.len() > 0 ==> (r matches Ok(plan) && {
            &&& plan.backup == backup
            &&& plan.steps@.len() == 1
            &&& plan.steps@[0].link_path@ == d@.push(s@.last())
            &&& plan.steps@[0].target@ == s@
        }),
{
    match s.file_name() {
        None => Err(Error::IncompatiblePaths { source: s }),
        Some(name) => {
            let link_path = d.join(&name);
            let mut steps: Vec<LinkStep> = Vec::new();
            steps.push(LinkStep { link_path, target: s });
            Ok(Plan { steps, backup })
        },
    }
}

/// Plans replicating a directory's immediate children into a directory: one
/// link per enumerated item, inside the destination under the item's path
/// relative to the source, pointing at the item. The first item not rooted
/// under the source refuses the whole plan.
fn plan_dir_into_dir(s: CanonPath, d: CanonPath, items: Vec<CanonPath>, backup: bool) -> (r: Result<
    Plan,
    Error,
>)
    ensures
        (forall|i: int| 0 <= i < items@.len() ==> is_path_prefix(s@, #[trigger] items@[i]@)) <==> r
            is Ok,
        r matches Ok(plan) ==> {
            &&& plan.backup == backup
            &&& plan.steps@.len() == items@.len()
            &&& forall|i: int|
                0 <= i < items@.len() ==> (#[trigger] plan.steps@[i]).target@ == items@[i]@
            &&& forall|i: int|
                0 <= i < items@.len() ==> (#[trigger] plan.steps@[i]).link_path@ == child_link_path(
                    s@,
                    d@,
                    items@[i]@,
                )
        },
        r matches Err(e) ==> (e matches Error::PathPrefixMismatch { item } && exists|j: int|
            #[trigger] first_prefix_mismatch(s@, items@, j) && item@ == items@[j]@),
{
    let mut steps: Vec<LinkStep> = Vec::new();
    let mut i: usize = 0;
    while i < items.len()
        invariant
            i <= items@.len(),
            steps@.len() == i,
            forall|k: int| 0 <= k < i ==> is_path_prefix(s@, #[trigger] items@[k]@),
            forall|k: int| 0 <= k < i ==> (#[trigger] steps@[k]).target@ == items@[k]@,
            forall|k: int|
                0 <= k < i ==> (#[trigger] steps@[k]).link_path@ == child_link_path(
                    s@,
                    d@,
                    items@[k]@,
                ),
        decreases items@.len() - i,
    {
        let item = &items[i];
        match item.strip_prefix(&s) {
            None => {
                proof {
                    assert(first_prefix_mismatch(s@, items@, i as int));
                }
                return Err(Error::PathPrefixMismatch { item: item.clone_path() });
            },
            Some(rest) => {
                let link_path = d.append(&rest);
                steps.push(LinkStep { link_path, target: item.clone_path() });
            },
        }
        i = i + 1;
    }
    Ok(Plan { steps, backup })
}

/// Decides how to clear the way for one link from what the shell observed:
/// whether something already stands at the link path. With backups on, an
/// existing item is renamed aside to its backup path; with backups off it is
/// deleted; an absent item needs nothing.
pub fn conflict_action(link_path: &CanonPath, present: bool, backup: bool) -> (r: ConflictAction)
    requires
        link_path@.len() > 0,
    ensures
        !present ==> r is Nothing,
        present && backup ==> (r matches ConflictAction::RenameTo { backup_path } && backup_path@
            == backup_path_spec(link_path@)),
        present && !backup ==> r is Delete,
{
    if !present {
        ConflictAction::Nothing
    } else if backup {
        ConflictAction::RenameTo { backup_path: link_path.backup_path() }
    } else {
        ConflictAction::Delete
    }
}

/// Whether a link may be created at all: on a platform without native
/// symbolic links the engine refuses before touching the filesystem. The
/// shell reports its platform here.
pub fn symlink_precheck(platform_has_symlinks: bool) -> (r: Result<(), Error>)
    ensures
        r is Ok <==> platform_has_symlinks,
        !platform_has_symlinks ==> r == Err::<(), Error>(Error::UnsupportedPlatform),
{
    if platform_has_symlinks {
        Ok(())
    } else {
        Err(Error::UnsupportedPlatform)
    }
}

} // verus!
