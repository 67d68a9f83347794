//! Byte-exact strings and paths, the parser for a device's directory
//! listings, and the decisions of a driver that copies a device's directory
//! tree into numbered archives.

pub mod device;
pub mod driver;
pub mod error;
pub mod hexfield;
pub mod listing;
pub mod mode;
pub mod path;
pub mod raw;
pub mod render;
pub mod time;

pub use device::{
    command_args, command_output, get_serialno, get_serialno_args, ls_args, pull, pull_args,
    pull_impl, single_line, SerialNumber,
};
pub use driver::{
    archive_file_name, default_exclusions, excluded, is_dot, record_for, visit_dir, visit_entry,
    visit_file,
    ArchiveState, DirAction, EntryAction, FileWrite, Storage, ROTATION_THRESHOLD,
};
pub use error::{Error, ExitError};
pub use hexfield::parse_hex_u32;
pub use listing::{ls, ls_impl, parse_record, LsEntry};
pub use mode::{ModeKind, ModeKinds, UnixMode};
pub use path::{RawPath, RawPathBuf};
pub use raw::{RawStr, RawString};
pub use time::{convert_date_time, ArchiveTime, CalendarTime, Epoch};
