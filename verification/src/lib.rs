//! The decision core of a Wayland compositor: where windows go, which of them
//! takes the pointer and the keyboard, what clients are told, and what the
//! control socket answers. Everything here is computation on plain values; the
//! event loop around it reads the devices and sends the results.

pub mod geometry;
pub mod keyboard;
pub mod text;
pub mod paths;
pub mod lists;
pub mod icon;
pub mod cursor;
pub mod media;
pub mod hdr;
pub mod drm;
pub mod clipboard;
pub mod config;
pub mod idle;
pub mod window;
pub mod tree;
pub mod desktop;
pub mod layout;
pub mod hotplug;
pub mod redraw;
pub mod frame;
pub mod layers;
pub mod popups;
pub mod pointer;
pub mod bindings;
pub mod screenshot;
pub mod color_management;
pub mod copycapture;
pub mod ipc;
pub mod server;
pub mod client;
pub mod conserve;
pub mod laws;
pub mod placing;
pub mod resizing;
pub mod pointing;
pub mod strips;
pub mod floats;
pub mod showing;
pub mod listing;
pub mod requests;
pub mod telling;
