//! A desktop trash can: the layout of the trash directory, the sidecar
//! metadata format, conflict-free naming and the decisions of the trash,
//! restore, erase and listing operations. The file-system work itself is left
//! to the caller, which reports what it finds and carries out what is decided.
mod chars;
pub mod codec;
pub mod datetime;
mod error;
pub mod mover;
pub mod path;
pub mod trash;

pub use codec::TrashInfo;
pub use datetime::LocalDateTime;
pub use error::{TrashError, TrashErrorKind};
pub use mover::{first_free_name, move_target, MoveTarget};
pub use path::{get_physical_mountpoint_of_file, AbsolutePath};
pub use trash::{
    file_stem, filter_trash_entry_by_age, filter_trash_entry_by_dir, ErasePlan, MoveRequest,
    SidecarFile, SidecarRecord, Trash, TrashEntry,
};
