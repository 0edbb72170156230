//! Puts two event timelines of a recorded match on one clock: events detected
//! in the video by a per-frame classifier, and the match's telemetry.
//!
//! `debounce` turns the classifier's per-sample output into event timestamps;
//! `offset` finds the offset that best aligns the two timelines, and `robust`
//! repeats that search with suspected outliers left out; `sync` ties both into
//! the estimation a match goes through. `clip`, `rounds` and `vod` hold the
//! timing rules around it.

pub mod clip;
pub mod debounce;
pub mod offset;
pub mod robust;
pub mod rounds;
pub mod suggest;
pub mod sync;
pub mod vod;
