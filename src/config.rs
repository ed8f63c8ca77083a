//! The application's settings: the ordered source list and the update schedule.
use vstd::prelude::*;
use crate::fetcher::{default_sources_spec, get_default_sources, view_of_sources, HostSource};

verus! {

/// Settings read by an update: which sources to use, and when it last ran.
#[derive(Clone, Debug)]
pub struct AppConfig {
    pub sources: Vec<HostSource>,
    pub auto_update: bool,
    pub update_interval_hours: u64,
    pub last_update: Option<String>,
}

impl Default for AppConfig {
    fn default() -> (r: AppConfig)
        ensures
            view_of_sources(r.sources@) == default_sources_spec(),
            !r.auto_update,
            r.update_interval_hours == 24,
            r.last_update is None,
    {
        AppConfig {
            sources: get_default_sources(),
            auto_update: false,
            update_interval_hours: 24,
            last_update: None,
        }
    }
}

impl AppConfig {
    /// Records `timestamp` as the time of the last successful update; nothing else
    /// changes.
    pub fn record_update(&mut self, timestamp: String)
        ensures
            final(self).last_update matches Some(t) && t@ == timestamp@,
            final(self).sources@ == old(self).sources@,
            final(self).auto_update == old(self).auto_update,
            final(self).update_interval_hours == old(self).update_interval_hours,
    {
        self.last_update = Some(timestamp);
    }

    /// A copy of the source list, for an update to work on.
    pub fn sources_snapshot(&self) -> (r: Vec<HostSource>)
        ensures
            view_of_sources(r@) == view_of_sources(self.sources@),
    {
        let mut out: Vec<HostSource> = Vec::new();
        let mut i: usize = 0;
        while i < self.sources.len()
            invariant
                i <= self.sources.len(),
                out.len() == i,
                forall|k: int| 0 <= k < i ==> #[trigger] out@[k]@ == self.sources@[k]@,
            decreases self.sources.len() - i,
        {
            out.push(self.sources[i].duplicate());
            i = i + 1;
        }
        assert(view_of_sources(out@) =~= view_of_sources(self.sources@));
        out
    }
}

} // verus!
