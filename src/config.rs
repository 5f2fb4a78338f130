//! The filter's configuration.

use vstd::prelude::*;

verus! {

/// Configuration of the SMTP filter.
#[derive(Debug, Clone, Copy, PartialEq, Eq, Structural)]
pub struct SmtpFilterConfig {
    /// Whether the stats are also kept for each SMTP verb and reply code.
    pub detailed_stats: bool,
}

impl Default for SmtpFilterConfig {
    /// No detailed stats.
    fn default() -> (r: SmtpFilterConfig)
        ensures
            !r.detailed_stats,
    {
        SmtpFilterConfig { detailed_stats: false }
    }
}

} // verus!
