//! The window manager: windows, their stacking and focus, workspaces and
//! monitors. It draws nothing and owns no client; backends ask it what to do
//! and take its requests.
//!
//! [`State`] is what a [`WindowManager`] is to its contracts: each operation is
//! a function from state to state.
mod dragresize;
mod focus;
mod hittest;
pub mod ids;
mod layout;
mod lock;
pub mod model;
mod monitors;
pub mod store;
mod windows;
mod winops;
mod workspaces;

pub use model::drag::RatioDrag;
pub use store::{
    monitors_ok, windows_ok, workspace_in, workspace_views, workspaces_ok, CaptureRequest, ColorFilter, Direction,
    DragState, Queues, Registered, Remembered, ResizeState, Settings, State, WindowManager, WorkspaceView,
};
