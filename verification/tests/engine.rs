use mirage::{
    backup_file_name, conflict_action, plan_replication, symlink_precheck, CanonPath,
    ConflictAction, Error, PathInfo,
};

fn bytes(s: &str) -> Vec<u8> {
    s.as_bytes().to_vec()
}

fn path(parts: &[&str]) -> CanonPath {
    let mut components: Vec<Vec<u8>> = Vec::new();
    for p in parts {
        components.push(bytes(p));
    }
    CanonPath::new(components)
}

#[test]
fn backup_file_name_appends_reserved_suffix() {
    assert_eq!(backup_file_name(&bytes("file_a")), bytes("file_a.mirage.backup"));
    assert_eq!(backup_file_name(&bytes("notes.txt")), bytes("notes.txt.mirage.backup"));
}

#[test]
fn backup_name_stacks_when_applied_again() {
    let once = backup_file_name(&bytes("file_a"));
    let twice = backup_file_name(&once);
    assert_eq!(twice, bytes("file_a.mirage.backup.mirage.backup"));
}

#[test]
fn backup_path_renames_the_final_component() {
    let p = path(&["home", "user", "notes.txt"]);
    assert_eq!(p.backup_path(), path(&["home", "user", "notes.txt.mirage.backup"]));
}

#[test]
fn join_and_file_name_work_on_components() {
    let d = path(&["dst"]);
    let joined = d.join(&bytes("file_a"));
    assert_eq!(joined, path(&["dst", "file_a"]));
    assert_eq!(joined.file_name(), Some(bytes("file_a")));
    assert_eq!(path(&[]).file_name(), None);
}

#[test]
fn strip_prefix_yields_the_relative_components() {
    let item = path(&["src", "sub", "file_a"]);
    let rest = item.strip_prefix(&path(&["src"])).unwrap();
    assert_eq!(rest, vec![bytes("sub"), bytes("file_a")]);
    assert!(path(&["other", "x"]).strip_prefix(&path(&["src"])).is_none());
    assert!(path(&["src"]).strip_prefix(&path(&["src", "deeper"])).is_none());
}

#[test]
fn plan_links_a_file_under_its_own_name() {
    let source = PathInfo::File { path: path(&["src", "file_a"]) };
    let dest = PathInfo::Dir { path: path(&["dst"]) };
    let plan = plan_replication(source, dest, Vec::new(), true).unwrap();
    assert!(plan.backup);
    assert_eq!(plan.steps.len(), 1);
    assert_eq!(plan.steps[0].link_path, path(&["dst", "file_a"]));
    assert_eq!(plan.steps[0].target, path(&["src", "file_a"]));
}

#[test]
fn plan_fans_out_over_immediate_children_only() {
    let source = PathInfo::Dir { path: path(&["src"]) };
    let dest = PathInfo::Dir { path: path(&["dst"]) };
    let items = vec![path(&["src", "file_a"]), path(&["src", "nested"])];
    let plan = plan_replication(source, dest, items, false).unwrap();
    assert!(!plan.backup);
    assert_eq!(plan.steps.len(), 2);
    assert_eq!(plan.steps[0].link_path, path(&["dst", "file_a"]));
    assert_eq!(plan.steps[0].target, path(&["src", "file_a"]));
    assert_eq!(plan.steps[1].link_path, path(&["dst", "nested"]));
    assert_eq!(plan.steps[1].target, path(&["src", "nested"]));
}

#[test]
fn plan_for_an_empty_directory_is_empty() {
    let source = PathInfo::Dir { path: path(&["src"]) };
    let dest = PathInfo::Dir { path: path(&["dst"]) };
    let plan = plan_replication(source, dest, Vec::new(), true).unwrap();
    assert!(plan.steps.is_empty());
}

#[test]
fn strip_prefix_of_the_path_itself_is_empty() {
    let p = path(&["src", "file_a"]);
    let rest = p.strip_prefix(&path(&["src", "file_a"])).unwrap();
    assert!(rest.is_empty());
}

#[test]
fn plan_fails_when_the_source_is_missing() {
    let source = PathInfo::Missing { path: bytes("/no/such/source") };
    let dest = PathInfo::Dir { path: path(&["dst"]) };
    let r = plan_replication(source, dest, Vec::new(), true);
    assert_eq!(r.unwrap_err(), Error::PathNotFound { path: bytes("/no/such/source") });
}

#[test]
fn plan_fails_when_the_destination_is_missing() {
    let source = PathInfo::File { path: path(&["src", "file_a"]) };
    let dest = PathInfo::Missing { path: bytes("/no/such/dest") };
    let r = plan_replication(source, dest, Vec::new(), true);
    assert_eq!(r.unwrap_err(), Error::PathNotFound { path: bytes("/no/such/dest") });
}

#[test]
fn plan_fails_fast_replicating_a_directory_into_a_file() {
    let source = PathInfo::Dir { path: path(&["src"]) };
    let dest = PathInfo::File { path: path(&["dst", "occupied"]) };
    let items = vec![path(&["src", "file_a"])];
    let r = plan_replication(source, dest, items, true);
    assert_eq!(r.unwrap_err(), Error::NotADirectory { path: path(&["dst", "occupied"]) });
}

#[test]
fn plan_rejects_an_item_outside_the_source() {
    let source = PathInfo::Dir { path: path(&["src"]) };
    let dest = PathInfo::Dir { path: path(&["dst"]) };
    let items = vec![path(&["src", "file_a"]), path(&["other", "x"])];
    let r = plan_replication(source, dest, items, true);
    assert_eq!(r.unwrap_err(), Error::PathPrefixMismatch { item: path(&["other", "x"]) });
}

#[test]
fn plan_rejects_a_source_with_no_name_of_its_own() {
    let source = PathInfo::File { path: path(&[]) };
    let dest = PathInfo::Dir { path: path(&["dst"]) };
    let r = plan_replication(source, dest, Vec::new(), true);
    assert_eq!(r.unwrap_err(), Error::IncompatiblePaths { source: path(&[]) });
}

#[test]
fn conflicts_need_nothing_when_the_entry_is_absent() {
    let link = path(&["dst", "file_a"]);
    assert_eq!(conflict_action(&link, false, true), ConflictAction::Nothing);
    assert_eq!(conflict_action(&link, false, false), ConflictAction::Nothing);
}

#[test]
fn conflicts_rename_aside_when_backups_are_on() {
    let link = path(&["dst", "file_a"]);
    let action = conflict_action(&link, true, true);
    assert_eq!(
        action,
        ConflictAction::RenameTo { backup_path: path(&["dst", "file_a.mirage.backup"]) }
    );
}

#[test]
fn conflicts_delete_when_backups_are_off() {
    let link = path(&["dst", "file_a"]);
    assert_eq!(conflict_action(&link, true, false), ConflictAction::Delete);
}

#[test]
fn symlink_precheck_refuses_an_unsupported_platform() {
    assert!(symlink_precheck(true).is_ok());
    assert_eq!(symlink_precheck(false).unwrap_err(), Error::UnsupportedPlatform);
}

#[test]
fn replicating_again_with_backup_moves_the_old_link_aside() {
    // First run into an empty destination: dst/file_a appears as a link.
    let plan = plan_replication(
        PathInfo::Dir { path: path(&["src"]) },
        PathInfo::Dir { path: path(&["dst"]) },
        vec![path(&["src", "file_a"])],
        true,
    )
    .unwrap();
    let step = &plan.steps[0];
    assert_eq!(conflict_action(&step.link_path, false, plan.backup), ConflictAction::Nothing);
    assert_eq!(step.link_path, path(&["dst", "file_a"]));
    assert_eq!(step.target, path(&["src", "file_a"]));

    // Second run: dst/file_a now exists, so it is renamed aside first, and
    // the fresh link still points at the same source child.
    let plan2 = plan_replication(
        PathInfo::Dir { path: path(&["src"]) },
        PathInfo::Dir { path: path(&["dst"]) },
        vec![path(&["src", "file_a"])],
        true,
    )
    .unwrap();
    let step2 = &plan2.steps[0];
    assert_eq!(
        conflict_action(&step2.link_path, true, plan2.backup),
        ConflictAction::RenameTo { backup_path: path(&["dst", "file_a.mirage.backup"]) }
    );
    assert_eq!(step2.target, path(&["src", "file_a"]));
}
