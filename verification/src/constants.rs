//! Names that the agent shares with the collectors it puts into a target.

use vstd::prelude::*;

verus! {

/// Sent by the pyki loader when its collection starts.
pub const START_PYKI_COLLECTOR: &'static str = "STARTPYKICOLLECTOR";

/// Sent by the pyki loader when its collection stops.
pub const STOP_PYKI_COLLECTOR: &'static str = "STOPPYKICOLLECTOR";

/// Sent by cuprof when a collection window starts.
pub const START_CUPTI_COLLECTOR: &'static str = "CUPTIProfilingStart";

/// Sent by cuprof when a collection window stops.
pub const STOP_CUPTI_COLLECTOR: &'static str = "CUPTIProfilingStop";

/// Sent by cuprof when the trace of a window has been written.
pub const FINISH_CUPTI_COLLECTOR: &'static str = "CUPTIProfilingWriterOver";

/// Sent by cuprof in place of [`FINISH_CUPTI_COLLECTOR`] when a window failed.
pub const FAILED_CUPTI_COLLECTOR: &'static str = "CUPTIProfilingFailed";

/// The lifecycle socket of a target, as the target sees it, without the PID that
/// ends its name.
pub const CF_UNIXSOCK: &'static str = "/tmp/.cf_sock_";

/// The injected library, as the target sees it, without the PID and the `.so`
/// that end its name.
pub const CUPTI_DST_PATH: &'static str = "/tmp/cf_loader_cupti_";

/// The directory that a target writes its trace into.
pub const DEFAULT_PATH: &'static str = "/tmp";

/// How the name of every trace begins.
pub const DEFAULT_PREFIX: &'static str = "AIProf_";

/// How the name of every vendored CUPTI runtime begins.
pub const CUPTI_FILE_PREFIX: &'static str = "libcupti.so.";

/// How the name of a runtime that is still being copied begins.
pub const CUPTI_STAGING_PREFIX: &'static str = ".cupti-staging-";

} // verus!
