//! Collects the media files (`mp3` / `mp4`) reachable from a set of roots,
//! visiting each canonical path identity at most once.
pub mod identity;
pub mod media;
pub mod visited;
pub mod collector;
