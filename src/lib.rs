//! Supervision of a file-synchronisation run: the grammars of the transfer
//! tool's progress and summary output, the per-stream event readers, and the
//! job state that their events are folded into.
use vstd::prelude::*;

pub mod format;
pub mod job;
pub mod options;
pub mod progress;
pub mod stats;
pub mod stream;
pub mod text;

pub use format::format_bytes;
pub use progress::{parse_rsync_progress, RsyncProgress};

verus! {

} // verus!
