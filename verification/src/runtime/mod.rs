pub mod error;
pub mod handles;
pub mod media;
pub mod session;
pub mod project_session;
pub mod export;
pub mod timeline_view;
pub mod session_edits;
pub mod selection;
pub mod visual_patch;
