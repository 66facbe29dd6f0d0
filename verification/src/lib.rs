//! Backend logic of a desktop code-editor shell: the project that is open,
//! directory listings, file payloads and the native menu's identifiers.
//!
//! Nothing here touches the disk, the settings store or the screen. Each
//! function takes what was read and says what is shown, kept or written.

pub mod error;
pub mod listing;
pub mod menu;
pub mod payload;
pub mod project;
pub mod settings;
pub mod text;

pub use error::{FsError, PathKind, Wanted};
pub use listing::{DirChild, FileEntry};
pub use menu::{Menu, MenuCommand, MenuEntry};
pub use payload::{FileData, WritePlan};
pub use project::ProjectState;
pub use settings::StoreAction;
