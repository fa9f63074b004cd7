//! A scrollable-tiling window manager's verified core: the column/workspace
//! layout model, its geometry on the screens, key-binding configuration,
//! input decoding and the decisions of the shell around them.
pub mod anim;
pub mod app;
pub mod config;
pub mod input;
pub mod layout;
pub mod screens;
pub mod text;
pub mod win;
