//! Network reachability decisions: which probe to run next and what the
//! probes' answers mean. The probes themselves (HTTP HEAD requests with a
//! timeout) are made by the caller.
use vstd::prelude::*;
use crate::numbers::{dec, u64_to_string};
use crate::text::{push_str, copy_str};

verus! {

/// Network environment detection.
pub struct NetworkDetect;

/// The outcome of the GitHub reachability check made before an update is
/// downloaded: whether the direct probe succeeded, whether a proxy is set
/// up, whether the probe through it succeeded, and the verdict.
#[derive(Debug, Clone, Copy, PartialEq, Eq, Structural)]
pub struct GitHubReachability {
    pub direct_ok: bool,
    pub proxy_configured: bool,
    pub proxy_ok: bool,
    pub reachable: bool,
}

/// What the reachability check does after a probe.
#[derive(Debug, Clone, Copy, PartialEq, Eq, Structural)]
pub enum ReachabilityStep {
    /// Probe GitHub again through the configured proxy.
    ProbeProxy,
    /// The check is over.
    Done(GitHubReachability),
}

/// A probe succeeds when the server answered with any status.
pub open spec fn spec_answered(status: Option<u16>) -> bool {
    match status {
        Some(code) => code > 0,
        None => false,
    }
}

/// The step after the direct probe: done (reachable) when it answered;
/// else a probe through the proxy when one is configured; else done
/// (unreachable).
pub open spec fn spec_after_direct_probe(direct_ok: bool, proxy_configured: bool) -> ReachabilityStep {
    if direct_ok {
        ReachabilityStep::Done(
            GitHubReachability { direct_ok: true, proxy_configured: false, proxy_ok: false, reachable: true },
        )
    } else if proxy_configured {
        ReachabilityStep::ProbeProxy
    } else {
        ReachabilityStep::Done(
            GitHubReachability { direct_ok: false, proxy_configured: false, proxy_ok: false, reachable: false },
        )
    }
}

/// The outcome after the probe through the proxy, the direct probe having
/// failed.
pub open spec fn spec_after_proxy_probe(proxy_ok: bool) -> GitHubReachability {
    GitHubReachability { direct_ok: false, proxy_configured: true, proxy_ok, reachable: proxy_ok }
}

impl NetworkDetect {
    /// Whether a HEAD request got an answer (`None`: the request failed).
    pub fn answered(status: Option<u16>) -> (r: bool)
        ensures
            r == spec_answered(status),
    {
        match status {
            Some(code) => code > 0,
            None => false,
        }
    }

    /// The step after the direct probe (see `spec_after_direct_probe`).
    pub fn after_direct_probe(direct_ok: bool, proxy_configured: bool) -> (r: ReachabilityStep)
        ensures
            r == spec_after_direct_probe(direct_ok, proxy_configured),
    {
        if direct_ok {
            ReachabilityStep::Done(
                GitHubReachability { direct_ok: true, proxy_configured: false, proxy_ok: false, reachable: true },
            )
        } else if proxy_configured {
            ReachabilityStep::ProbeProxy
        } else {
            ReachabilityStep::Done(
                GitHubReachability { direct_ok: false, proxy_configured: false, proxy_ok: false, reachable: false },
            )
        }
    }

    /// The outcome after the probe through the configured proxy (the direct
    /// probe having failed).
    pub fn after_proxy_probe(proxy_ok: bool) -> (r: GitHubReachability)
        ensures
            r == spec_after_proxy_probe(proxy_ok),
    {
        GitHubReachability { direct_ok: false, proxy_configured: true, proxy_ok, reachable: proxy_ok }
    }

    /// Whether GitHub counts as accessible: the direct probe answered, or
    /// else the probe through the proxy did (`None` while not yet made).
    pub fn github_accessible(direct_ok: bool, proxy_ok: Option<bool>) -> (r: bool)
        ensures
            r == (direct_ok || proxy_ok == Some(true)),
    {
        direct_ok || match proxy_ok {
            Some(b) => b,
            None => false,
        }
    }

    /// The proxy URL used to time a proxy: `http://host:port`.
    pub fn latency_proxy_url(host: &str, port: u16) -> (r: String)
        ensures
            r@ == "http://"@ + host@ + seq![':'] + dec(port as nat),
    {
        let mut s = copy_str("http://");
        push_str(&mut s, host);
        push_str(&mut s, ":");
        let p = u64_to_string(port as u64);
        push_str(&mut s, p.as_str());
        proof {
            reveal_strlit(":");
            assert(":"@ =~= seq![':']);
        }
        s
    }
}

/// Every outcome of the reachability check says GitHub is reachable
/// exactly when one of the two probes succeeded.
pub proof fn law_reachable_iff_a_probe_succeeded(direct_ok: bool, proxy_configured: bool, proxy_ok: bool)
    ensures
        ({
            match spec_after_direct_probe(direct_ok, proxy_configured) {
                ReachabilityStep::Done(g) => g.reachable == direct_ok && g.direct_ok == direct_ok,
                ReachabilityStep::ProbeProxy => !direct_ok && spec_after_proxy_probe(proxy_ok).reachable
                    == proxy_ok,
            }
        }),
{
}

} // verus!
