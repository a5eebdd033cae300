//! Verified core of a terminal music player.
//!
//! The library models the streaming playback engine — sample normalization,
//! the producer/consumer sample queue, the playback controller state machine
//! and the autoplay coordination — together with the catalog bookkeeping
//! (artist/album/track tree, selection, browsing lists) and tag folding.
//! Real I/O (files, the audio device, the terminal) lives outside, in the
//! application shell, which feeds this library plain values.

pub mod browser;
pub mod control;
pub mod library;
pub mod list;
pub mod order;
pub mod player;
pub mod queue;
pub mod sample;
pub mod tags;
