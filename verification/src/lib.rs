//! The decision logic of the Newfoundsync server: the wire protocol, the per-client session,
//! the media pipeline's timing and liveness rules, the picture and bitstream arithmetic, and what
//! the control panel shows. Everything here is plain computation; sockets, devices and windows
//! belong to the program around it.

pub mod audio;
pub mod bitstream;
mod clock;
pub mod config;
pub mod encoder;
pub mod ffmpeg;
pub mod h264;
pub mod health;
pub mod media;
pub mod mixer;
pub mod pages;
pub mod panel;
pub mod pixels;
pub mod producer;
pub mod qr;
pub mod registry;
pub mod screen;
pub mod session;
pub mod sessions;
pub mod settings;
pub mod shell;
pub mod sources;
pub mod startup;
pub mod text;
pub mod theme;
pub mod tls;
pub mod wire;
