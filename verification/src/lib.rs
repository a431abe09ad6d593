//! The decision logic of the Legacy Select affinity overlay: hotkey names,
//! badge captions, which parent a branch value belongs to, and the overlay's
//! state across the game's calls.
pub mod affinity;
pub mod api;
pub mod config;
pub mod dx_overlay;
pub mod slots;
pub mod text;
