//! The decisions of a tiling window manager: which window goes where, which
//! one gets the focus, and what is to be asked of the display server next.

pub mod action;
pub mod area;
pub mod config;
pub mod effects;
pub mod event;
pub mod grab;
pub mod laws;
pub mod manager;
pub mod monitor;
pub mod reaction;
pub mod request;
pub mod reshape;
pub mod setup;
pub mod workspace;
