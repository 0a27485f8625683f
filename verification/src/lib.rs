//! Pure logic for the herdr-title-rename plugin: automatic names for the tabs
//! and workspaces of a Herdr session, and the title of the window around it.
//!
//! Everything here is free of I/O: the caller supplies a snapshot, the current
//! state, and a resolver that turns a directory into names, and gets back a
//! plan of rename calls plus the window title to set. The requests that carry a
//! plan out, and what is to be made of the replies, are here too.

pub mod config;
pub mod json;
pub mod labels;
pub mod laws;
pub mod lock;
pub mod naming;
pub mod paths;
pub mod plan;
pub mod rename;
pub mod replies;
pub mod requests;
pub mod run;
pub mod search;
pub mod snapshot;
pub mod state;
pub mod steps;
pub mod text;
pub mod title;

pub use crate::config::{Config, ConfigFile};
pub use crate::labels::Labels;
pub use crate::naming::{
    command_output, repo_name, tab_name, Progress, Question, Stage, WorkspaceNaming,
};
pub use crate::paths::{basename, parent, render_path, PathStyle};
pub use crate::plan::{
    directories_to_name, plan, plan_from_answers, plan_from_names, Names, Plan,
};
pub use crate::rename::Rename;
pub use crate::replies::{accept_line, check_response, snapshot_from_response, Body, Envelope};
pub use crate::requests::{
    session_snapshot_request, tab_rename_request, window_title_request, workspace_rename_request,
};
pub use crate::snapshot::{Layout, Pane, Snapshot, Tab, Workspace};
pub use crate::state::{is_default_label, plan_label, LabelKind, SavedState, State};
pub use crate::title::build_title;
