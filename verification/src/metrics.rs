//! Counters and their Prometheus text rendering.
use vstd::prelude::*;
use crate::strutil::{dec_of, u64_to_dec};

verus! {

/// The process counters served at the metrics endpoint.
pub struct Metrics {
    pub requests_total: u64,
    pub requests_duration_ms: u64,
    pub registry_uploads_total: u64,
    pub registry_downloads_total: u64,
}

impl Default for Metrics {
    fn default() -> (r: Self)
        ensures
            r.requests_total == 0,
            r.requests_duration_ms == 0,
            r.registry_uploads_total == 0,
            r.registry_downloads_total == 0,
    {
        Metrics {
            requests_total: 0,
            requests_duration_ms: 0,
            registry_uploads_total: 0,
            registry_downloads_total: 0,
        }
    }
}

/// The Prometheus exposition of the counters.
pub open spec fn spec_prometheus(m: Metrics) -> Seq<char> {
    "# HELP requests_total Total number of HTTP requests\n# TYPE requests_total counter\nrequests_total "@
        + dec_of(m.requests_total as nat)
        + "\n# HELP requests_duration_ms Duration of HTTP requests in milliseconds\n# TYPE requests_duration_ms gauge\nrequests_duration_ms "@
        + dec_of(m.requests_duration_ms as nat)
        + "\n# HELP registry_uploads_total Total number of registry uploads\n# TYPE registry_uploads_total counter\nregistry_uploads_total "@
        + dec_of(m.registry_uploads_total as nat)
        + "\n# HELP registry_downloads_total Total number of registry downloads\n# TYPE registry_downloads_total counter\nregistry_downloads_total "@
        + dec_of(m.registry_downloads_total as nat) + "\n"@
}

impl Metrics {
    pub fn new() -> (r: Self)
        ensures
            r.requests_total == 0,
            r.requests_duration_ms == 0,
            r.registry_uploads_total == 0,
            r.registry_downloads_total == 0,
    {
        Metrics {
            requests_total: 0,
            requests_duration_ms: 0,
            registry_uploads_total: 0,
            registry_downloads_total: 0,
        }
    }

    /// Counts one request; the counter holds at its maximum.
    pub fn increment_requests(&mut self)
        ensures
            final(self).requests_total == if old(self).requests_total < u64::MAX {
                old(self).requests_total + 1
            } else {
                old(self).requests_total as int
            },
            final(self).requests_duration_ms == old(self).requests_duration_ms,
            final(self).registry_uploads_total == old(self).registry_uploads_total,
            final(self).registry_downloads_total == old(self).registry_downloads_total,
    {
        if self.requests_total < u64::MAX {
            self.requests_total = self.requests_total + 1;
        }
    }

    /// Records the duration of the last request.
    pub fn record_request_duration(&mut self, duration_ms: u64)
        ensures
            final(self).requests_duration_ms == duration_ms,
            final(self).requests_total == old(self).requests_total,
            final(self).registry_uploads_total == old(self).registry_uploads_total,
            final(self).registry_downloads_total == old(self).registry_downloads_total,
    {
        self.requests_duration_ms = duration_ms;
    }

    /// Counts one upload; the counter holds at its maximum.
    pub fn increment_uploads(&mut self)
        ensures
            final(self).registry_uploads_total == if old(self).registry_uploads_total < u64::MAX {
                old(self).registry_uploads_total + 1
            } else {
                old(self).registry_uploads_total as int
            },
            final(self).requests_total == old(self).requests_total,
            final(self).requests_duration_ms == old(self).requests_duration_ms,
            final(self).registry_downloads_total == old(self).registry_downloads_total,
    {
        if self.registry_uploads_total < u64::MAX {
            self.registry_uploads_total = self.registry_uploads_total + 1;
        }
    }

    /// Counts one download; the counter holds at its maximum.
    pub fn increment_downloads(&mut self)
        ensures
            final(self).registry_downloads_total == if old(self).registry_downloads_total
                < u64::MAX {
                old(self).registry_downloads_total + 1
            } else {
                old(self).registry_downloads_total as int
            },
            final(self).requests_total == old(self).requests_total,
            final(self).requests_duration_ms == old(self).requests_duration_ms,
            final(self).registry_uploads_total == old(self).registry_uploads_total,
    {
        if self.registry_downloads_total < u64::MAX {
            self.registry_downloads_total = self.registry_downloads_total + 1;
        }
    }

    /// Renders the counters in the Prometheus text format.
    pub fn export_prometheus(&self) -> (r: String)
        ensures
            r@ == spec_prometheus(*self),
    {
        let mut s =
            "# HELP requests_total Total number of HTTP requests\n# TYPE requests_total counter\nrequests_total ".to_owned();
        let v1 = u64_to_dec(self.requests_total);
        s.append(v1.as_str());
        s.append(
            "\n# HELP requests_duration_ms Duration of HTTP requests in milliseconds\n# TYPE requests_duration_ms gauge\nrequests_duration_ms ",
        );
        let v2 = u64_to_dec(self.requests_duration_ms);
        s.append(v2.as_str());
        s.append(
            "\n# HELP registry_uploads_total Total number of registry uploads\n# TYPE registry_uploads_total counter\nregistry_uploads_total ",
        );
        let v3 = u64_to_dec(self.registry_uploads_total);
        s.append(v3.as_str());
        s.append(
            "\n# HELP registry_downloads_total Total number of registry downloads\n# TYPE registry_downloads_total counter\nregistry_downloads_total ",
        );
        let v4 = u64_to_dec(self.registry_downloads_total);
        s.append(v4.as_str());
        s.append("\n");
        s
    }
}

} // verus!
