//! Window and output model of a Wayland compositor: geometry, surfaces,
//! outputs, windows in stacking layers, interactive gestures and a
//! floating window-management policy.

pub mod event;
pub mod events;
pub mod geometry;
pub mod keyboard;
pub mod layer_shell;
pub mod membership;
pub mod notice;
pub mod output;
pub mod policy;
pub mod surface;
pub mod window;
pub mod window_manager;
