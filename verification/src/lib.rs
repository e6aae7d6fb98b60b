//! A playback-and-compositing core for a non-linear video editor.
//!
//! The crate holds the parts of a playback engine that carry real rules:
//! the timeline of clips and the resolution of the clip shown at a time,
//! the playback clock, the decisions of a video decoder session, and the
//! registry of background proxy transcodes. Every time is a whole number of
//! microseconds. Input and output (files, codecs, the display surface) are
//! left to the embedding program, which performs the steps that the
//! functions here decide on.

pub mod timeline;
pub mod decoding;
pub mod engine;
pub mod proxy_manager;
