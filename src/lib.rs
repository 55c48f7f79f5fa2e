//! Verified core of a control surface for a multi-track audio looper: the
//! mapping from transport time to pixels, loop tiling, draw-cache decisions,
//! hit-testing, the inline tempo editor and the beat-pulse animation.

pub mod timeline;
pub mod track;
pub mod cache;
pub mod event;
pub mod button;
pub mod tempo;
pub mod animation;
pub mod metric;
pub mod page;
