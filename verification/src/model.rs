use vstd::prelude::*;

use crate::bytes::{backup_name_spec, backup_suffix};
use crate::linker::{child_link_path, is_path_prefix, LinkStep};
use crate::paths::CanonPath;

verus! {

broadcast use vstd::set::group_set_axioms, vstd::map::group_map_axioms;

/// What one entry of the destination directory is, as far as replication
/// ever looks at it: a symbolic link with its target path, or any other
/// item, carried whole and unread. Renaming an entry moves its whole value,
/// a directory's contents included.
pub enum ItemModel {
    Symlink { target: Seq<Seq<u8>> },
    Opaque,
}

/// One link step as it acts on the destination directory: the entry name it
/// creates there and the path the new link points at.
pub struct StepModel {
    pub name: Seq<u8>,
    pub target: Seq<Seq<u8>>,
}

/// A destination directory's contents: each entry name to the item standing
/// there.
pub type DirModel = Map<Seq<u8>, ItemModel>;

/// How one planned link acts on the destination directory that holds it: the
/// link path's final component is the entry it creates there.
pub open spec fn step_model_of(step: LinkStep) -> StepModel
    recommends
        step.link_path@.len() > 0,
{
    StepModel { name: step.link_path@.last(), target: step.target@ }
}

/// What conflict resolution does to the destination directory: an absent
/// entry needs nothing; with backups on, an existing entry moves, whole, to
/// its backup name; with backups off it is deleted (recursively if a
/// directory, which in either case removes the one entry).
pub open spec fn resolve_conflict_model(m: DirModel, name: Seq<u8>, backup: bool) -> DirModel {
    if !m.dom().contains(name) {
        m
    } else if backup {
        m.remove(name).insert(backup_name_spec(name), m[name])
    } else {
        m.remove(name)
    }
}

/// What one step of a plan does to the destination directory: resolve the
/// conflict at the entry, then create the symbolic link there.
pub open spec fn apply_step_model(m: DirModel, step: StepModel, backup: bool) -> DirModel {
    resolve_conflict_model(m, step.name, backup).insert(
        step.name,
        ItemModel::Symlink { target: step.target },
    )
}

/// What a whole plan does to the destination directory: its steps, in order.
pub open spec fn apply_plan_model(m: DirModel, steps: Seq<StepModel>, backup: bool) -> DirModel
    decreases steps.len(),
{
    if steps.len() == 0 {
        m
    } else {
        apply_plan_model(apply_step_model(m, steps[0], backup), steps.drop_first(), backup)
    }
}

/// When every enumerated item is an immediate child of the source — one
/// component below it — each planned link acts on the destination directory
/// as the entry named after that child, pointing at the child itself: the
/// shape `lemma_directory_fan_out` speaks about.
pub proof fn lemma_plan_models_immediate_children(
    s: Seq<Seq<u8>>,
    d: Seq<Seq<u8>>,
    items: Seq<CanonPath>,
    steps: Seq<LinkStep>,
)
    requires
        steps.len() == items.len(),
        forall|i: int| 0 <= i < items.len() ==> (#[trigger] steps[i]).target@ == items[i]@,
        forall|i: int|
            0 <= i < items.len() ==> (#[trigger] steps[i]).link_path@ == child_link_path(
                s,
                d,
                items[i]@,
            ),
        forall|i: int|
            0 <= i < items.len() ==> is_path_prefix(s, #[trigger] items[i]@) && items[i]@.len()
                == s.len() + 1,
    ensures
        forall|i: int|
            0 <= i < steps.len() ==> #[trigger] step_model_of(steps[i]) == (StepModel {
                name: items[i]@.last(),
                target: items[i]@,
            }),
{
    assert forall|i: int| 0 <= i < steps.len() implies #[trigger] step_model_of(steps[i])
        == (StepModel { name: items[i]@.last(), target: items[i]@ }) by {
        let link = child_link_path(s, d, items[i]@);
        assert(link.len() == d.len() + 1);
        assert(link.last() == items[i]@.subrange(s.len() as int, items[i]@.len() as int)[0]);
        assert(link.last() == items[i]@.last());
    }
}

/// Whether some step of a plan creates the entry named `n`.
pub open spec fn step_named(steps: Seq<StepModel>, n: Seq<u8>) -> bool {
    exists|i: int| 0 <= i < steps.len() && (#[trigger] steps[i]).name == n
}

/// A backup name is strictly longer than the name it backs up, so the two
/// never collide.
pub proof fn lemma_backup_name_distinct(name: Seq<u8>)
    ensures
        backup_name_spec(name) != name,
{
    assert(backup_suffix().len() == 14);
    assert(backup_name_spec(name).len() == name.len() + 14);
}

/// Round-trip link integrity: replicating a single file into a directory
/// whose entries do not collide with it leaves the directory with exactly
/// one new entry, named after the source file itself, and that entry is a
/// symbolic link whose target is the source's canonical path. Every entry
/// already present is untouched.
pub proof fn lemma_round_trip_link_integrity(m: DirModel, source: Seq<Seq<u8>>, backup: bool)
    requires
        source.len() > 0,
        !m.dom().contains(source.last()),
    ensures
        ({
            let m2 = apply_step_model(m, StepModel { name: source.last(), target: source }, backup);
            &&& m2.dom() == m.dom().insert(source.last())
            &&& m2[source.last()] == (ItemModel::Symlink { target: source })
            &&& forall|n: Seq<u8>|
                m.dom().contains(n) && n != source.last() ==> #[trigger] m2[n] == m[n]
        }),
{
    let m2 = apply_step_model(m, StepModel { name: source.last(), target: source }, backup);
    assert(m2.dom() =~= m.dom().insert(source.last()));
}

/// Backup, no overwrite: when the destination entry already exists and
/// backups are on, one step leaves the old item, unaltered, under the backup
/// name — the entry's own name with `.mirage.backup` appended — and a fresh
/// symbolic link at the original name. Nothing else in the directory
/// changes, and the step writes nowhere outside the destination directory,
/// so in particular the source item is never renamed or altered.
pub proof fn lemma_backup_no_overwrite(m: DirModel, step: StepModel)
    requires
        m.dom().contains(step.name),
        !m.dom().contains(backup_name_spec(step.name)),
    ensures
        ({
            let m2 = apply_step_model(m, step, true);
            &&& m2.dom() == m.dom().insert(backup_name_spec(step.name))
            &&& m2[step.name] == (ItemModel::Symlink { target: step.target })
            &&& m2[backup_name_spec(step.name)] == m[step.name]
            &&& forall|n: Seq<u8>|
                m.dom().contains(n) && n != step.name ==> #[trigger] m2[n] == m[n]
        }),
{
    let m2 = apply_step_model(m, step, true);
    lemma_backup_name_distinct(step.name);
    assert(m2.dom() =~= m.dom().insert(backup_name_spec(step.name)));
}

/// Overwrite without backup: when the destination entry already exists and
/// backups are off, one step deletes the old item and puts the fresh
/// symbolic link in its place; no backup entry appears — the backup name is
/// present afterwards only where an item of that name already existed on its
/// own — and nothing else in the directory changes.
pub proof fn lemma_overwrite_without_backup(m: DirModel, step: StepModel)
    requires
        m.dom().contains(step.name),
    ensures
        ({
            let m2 = apply_step_model(m, step, false);
            &&& m2.dom() == m.dom()
            &&& m2[step.name] == (ItemModel::Symlink { target: step.target })
            &&& m2.dom().contains(backup_name_spec(step.name)) <==> m.dom().contains(
                backup_name_spec(step.name),
            )
            &&& forall|n: Seq<u8>|
                m.dom().contains(n) && n != step.name ==> #[trigger] m2[n] == m[n]
        }),
{
    let m2 = apply_step_model(m, step, false);
    lemma_backup_name_distinct(step.name);
    assert(m2.dom() =~= m.dom());
}

/// Directory fan-out: replicating a directory with N immediate children
/// into a directory whose entries do not collide with them adds exactly N
/// new entries, one per child under the child's own name, each a symbolic
/// link to that child. Every entry already present is untouched, and no
/// entry is created for anything deeper than the immediate children: a plan
/// step exists only per child, never per grandchild.
pub proof fn lemma_directory_fan_out(m: DirModel, steps: Seq<StepModel>, backup: bool)
    requires
        m.dom().finite(),
        forall|i: int, j: int|
            0 <= i < j < steps.len() ==> (#[trigger] steps[i]).name != (#[trigger] steps[j]).name,
        forall|i: int| 0 <= i < steps.len() ==> !m.dom().contains((#[trigger] steps[i]).name),
    ensures
        ({
            let m2 = apply_plan_model(m, steps, backup);
            &&& m2.dom().finite()
            &&& m2.dom().len() == m.dom().len() + steps.len()
            &&& forall|i: int|
                0 <= i < steps.len() ==> m2.dom().contains((#[trigger] steps[i]).name)
                    && m2[steps[i].name] == (ItemModel::Symlink { target: steps[i].target })
            &&& forall|n: Seq<u8>|
                #![trigger m2[n]]
                #![trigger m2.dom().contains(n)]
                m.dom().contains(n) ==> m2.dom().contains(n) && m2[n] == m[n]
            &&& forall|n: Seq<u8>|
                #[trigger] m2.dom().contains(n) ==> m.dom().contains(n) || step_named(steps, n)
        }),
    decreases steps.len(),
{
    if steps.len() == 0 {
    } else {
        let step0 = steps[0];
        let rest = steps.drop_first();
        let m1 = apply_step_model(m, step0, backup);
        assert(m1 == m.insert(step0.name, ItemModel::Symlink { target: step0.target }));
        assert(m1.dom() =~= m.dom().insert(step0.name));
        assert forall|i: int| 0 <= i < rest.len() implies !m1.dom().contains(
            (#[trigger] rest[i]).name,
        ) by {
            assert(rest[i] == steps[i + 1]);
        }
        lemma_directory_fan_out(m1, rest, backup);
        let m2 = apply_plan_model(m1, rest, backup);
        assert(apply_plan_model(m, steps, backup) == m2);
        assert forall|i: int| 0 <= i < steps.len() implies m2.dom().contains(
            (#[trigger] steps[i]).name,
        ) && m2[steps[i].name] == (ItemModel::Symlink { target: steps[i].target }) by {
            if i == 0 {
                assert(m1.dom().contains(step0.name));
                assert(!step_named(rest, step0.name));
                assert(m2[step0.name] == m1[step0.name]);
            } else {
                assert(rest[i - 1] == steps[i]);
            }
        }
        assert forall|n: Seq<u8>| #[trigger] m2.dom().contains(n) implies m.dom().contains(n)
            || step_named(steps, n) by {
            if m1.dom().contains(n) || step_named(rest, n) {
                if n == step0.name {
                    assert(steps[0].name == n);
                } else if m1.dom().contains(n) && m.dom().contains(n) {
                } else if step_named(rest, n) {
                    let i = choose|i: int| 0 <= i < rest.len() && (#[trigger] rest[i]).name == n;
                    assert(steps[i + 1].name == n);
                }
            }
        }
        assert(!m.dom().contains(steps[0].name));
        assert forall|n: Seq<u8>|
            #![trigger m2[n]]
            #![trigger m2.dom().contains(n)]
        m.dom().contains(n) implies m2.dom().contains(n) && m2[n] == m[n] by {
            assert(n != step0.name);
            assert(m1.dom().contains(n));
            assert(m1[n] == m[n]);
            assert(apply_plan_model(m1, rest, backup)[n] == m1[n] && apply_plan_model(
                m1,
                rest,
                backup,
            ).dom().contains(n));
        }
        assert(m1.dom().len() == m.dom().len() + 1);
        assert(m2.dom().len() == m1.dom().len() + rest.len());
        assert(rest.len() == steps.len() - 1);
    }
}

} // verus!
