//! A link-based replication engine: it plans how to mirror a source file or
//! the immediate children of a source directory into a destination directory
//! as symbolic links, resolving conflicts with existing destination entries
//! by renaming them aside (backup) or deleting them. The planning and
//! decision logic lives here, fully specified; a thin shell performs the
//! filesystem observations and actions the plans call for.

mod bytes;
mod config;
mod error;
mod linker;
mod model;
mod paths;
mod synchronizer;

pub use bytes::{backup_file_name, backup_name_spec, backup_suffix};
pub use config::{Config, Link};
pub use error::Error;
pub use linker::{
    child_link_path, conflict_action, first_prefix_mismatch, is_path_prefix,
    lemma_child_link_path_in_destination, plan_replication, symlink_precheck, ConflictAction,
    LinkStep, PathInfo, Plan,
};
pub use model::{
    apply_plan_model, apply_step_model, lemma_backup_name_distinct, lemma_backup_no_overwrite,
    lemma_directory_fan_out, lemma_overwrite_without_backup, lemma_plan_models_immediate_children,
    lemma_round_trip_link_integrity,
    resolve_conflict_model, step_model_of, step_named, DirModel, ItemModel, StepModel,
};
pub use paths::{backup_path_spec, lemma_backup_path_is_sibling, CanonPath};
pub use synchronizer::{lemma_batch_partial_application, sync, Request, Synchronizer};
