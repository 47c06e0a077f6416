//! AirPods control-protocol parsing and device state for the GNOME backend.
pub mod bytes;
pub mod crypto;
pub mod protocol;
pub mod model;
pub mod media;
pub mod playback;
pub mod pipewire;
pub mod text;
pub mod settings;
pub mod bluetooth;
pub mod daemon;
pub mod control;
