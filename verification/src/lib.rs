//! Drives a ring of twelve addressable RGB LEDs: a color model (HSV to RGB),
//! a signal encoder that turns colors into the single-wire pulse train the
//! LED chip expects, animation frame generators (chase, spin, ambient
//! gradient), and a check-in watcher that turns roster snapshots into
//! new-arrival events with a deterministic per-identity palette.

pub mod animation;
pub mod checkin;
pub mod color;
pub mod coordinator;
pub mod encoder;

pub use checkin::CheckInRecord;
pub use checkin::PersonId;
pub use color::Color;
pub use color::hsv_to_rgb;
pub use color::user_colors;
pub use encoder::PulsePair;
pub use encoder::PulseTiming;
pub use encoder::encode_pixels;
pub use encoder::ns;
