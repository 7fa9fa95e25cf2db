//! The decision logic of a Wayland wallpaper daemon.
//!
//! A program around this library owns the sockets, the compositor connection, the clock and the
//! pixels. It tells the library what happened, in plain values, and carries out what the library
//! answers. Everything that chooses is here.
//!
//! Every function is verified, except for five in [`objects`] whose contracts are trusted: they
//! call the object registry of the `waybackend` crate, and say of each call what it does to the
//! registry.

pub mod animator;
pub mod daemon;
pub mod draw;
pub mod draw_laws;
pub mod event_loop;
pub mod events;
pub mod exit;
pub mod format;
pub mod laws;
pub mod logger;
pub mod objects;
pub mod request;
pub mod setup;
pub mod socket;
pub mod time;
pub mod wallpaper;
