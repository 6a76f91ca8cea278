//! Rendering and streaming pipeline of an analog clock on an X/Y vector display.
//!
//! The crate turns shapes ([`shape`]) into a stream of coordinate samples that
//! is cut into segments ([`picture`], [`segment`]), composes the clock face
//! from them ([`face`]), keeps the two sample buffers apart ([`buffers`]) and
//! decides, transfer by transfer, what the output hardware is handed next
//! ([`engine`]). Around these stand the mapping from coordinates to channel
//! values ([`sample`]), line rasterization ([`raster`]), glyphs ([`font`]),
//! civil time and the directions of the hands ([`clock`]), the layout of the
//! face in directions and distances ([`layout`]), the wall clock's offset
//! ([`ntptime`]), the control channel ([`control`]) and the bring-up of the
//! display ([`startup`]).
//!
//! Sine and cosine are not part of the crate: places on the face are laid out
//! here in whole steps of a turn, and whoever draws turns them into
//! coordinates.

pub mod buffers;
pub mod clock;
pub mod control;
pub mod engine;
pub mod face;
pub mod font;
pub mod layout;
pub mod ntptime;
pub mod picture;
pub mod raster;
pub mod sample;
pub mod segment;
pub mod shape;
pub mod startup;
