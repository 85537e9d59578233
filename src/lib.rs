//! Verified decision logic of a batch track archiver: identifier extraction,
//! availability fallback, format choice, output placement, tag synthesis and
//! the walk over a collection's members.

pub mod availability;
pub mod format;
pub mod ids;
pub mod media;
pub mod placement;
pub mod tags;
pub mod walker;
