//! Destination reachability of one sync target: periodic probing through a network
//! resolver, alternate (UNC) path selection, and de-duplicated status notifications.
//! Times are milliseconds on the worker's clock.

use vstd::prelude::*;
use std::sync::Arc;
use crate::traits::SyncStatusObserver;
use crate::types::ConnectivityState;
use crate::text::str_eq;
use crate::state::{secs_to_ms, spec_secs_to_ms};

verus! {

/// Resolves and probes destination paths (mapped drives, UNC shares).
pub trait NetworkResolver {
    /// An alternate path reaching the same destination (e.g. the UNC form of a mapped
    /// drive), or `path` itself.
    fn try_resolve_alternate_path(&self, path: &str) -> String;

    /// Whether `path` is currently accessible.
    fn is_destination_accessible(&self, path: &str) -> bool;
}

/// A resolver for tests: paths resolve to themselves and accessibility is fixed.
#[derive(Debug, Clone)]
pub struct MockNetworkResolver {
    accessible: bool,
}

impl MockNetworkResolver {
    /// A resolver under which every destination is accessible.
    pub fn new() -> (r: Self)
        ensures
            r.spec_accessible(),
    {
        MockNetworkResolver { accessible: true }
    }

    /// A resolver under which every destination is, or is not, accessible.
    pub fn with_accessible(accessible: bool) -> (r: Self)
        ensures
            r.spec_accessible() == accessible,
    {
        MockNetworkResolver { accessible }
    }

    /// Whether destinations are accessible.
    pub closed spec fn spec_accessible(&self) -> bool {
        self.accessible
    }
}

impl NetworkResolver for MockNetworkResolver {
    fn try_resolve_alternate_path(&self, path: &str) -> (r: String)
        ensures
            r@ == path@,
    {
        path.to_owned()
    }

    fn is_destination_accessible(&self, path: &str) -> (r: bool)
        ensures
            r == self.spec_accessible(),
    {
        self.accessible
    }
}

/// Where a reachability probe leaves the target: the resolved path when it is accessible,
/// else the configured path, online when that one is accessible.
pub open spec fn probe_result(
    configured: Seq<char>,
    resolved: Seq<char>,
    resolved_accessible: bool,
    configured_accessible: bool,
) -> (Seq<char>, bool) {
    if resolved_accessible {
        (resolved, true)
    } else if configured_accessible && resolved != configured {
        (configured, true)
    } else {
        (configured, false)
    }
}

/// Connectivity state of an online flag.
pub open spec fn state_of(online: bool) -> ConnectivityState {
    if online {
        ConnectivityState::Online
    } else {
        ConnectivityState::Offline
    }
}

/// Reachability of one target destination.
pub struct ReachabilityMonitor<R: NetworkResolver + ?Sized> {
    pub target_index: usize,
    pub configured_dest: String,
    pub active_dest: String,
    pub dest_online: bool,
    pub last_sent_status: Option<ConnectivityState>,
    pub last_status_check: Option<u64>,
    pub retry_ms: u64,
    pub resolver: Arc<R>,
    /// The statuses reported to the observer so far, in order: a record kept at the point
    /// where the observer is called.
    pub notified: Ghost<Seq<ConnectivityState>>,
}

/// `after` is the record of reports `before` after a status change to `online` with
/// `last` the status last sent: the new status is reported when it differs from `last`
/// and an observer is present.
pub open spec fn reported(
    before: Seq<ConnectivityState>,
    after: Seq<ConnectivityState>,
    last: Option<ConnectivityState>,
    online: bool,
    has_observer: bool,
) -> bool {
    if has_observer && last != Some(state_of(online)) {
        after == before.push(state_of(online))
    } else {
        after == before
    }
}

impl<R: NetworkResolver + ?Sized> ReachabilityMonitor<R> {
    /// A monitor for `configured_dest`, offline until probed, probing every
    /// `retry_interval_seconds` seconds (saturating in milliseconds).
    pub fn new(
        target_index: usize,
        configured_dest: &str,
        retry_interval_seconds: u64,
        resolver: Arc<R>,
    ) -> (m: Self)
        ensures
            m.target_index == target_index,
            m.configured_dest@ == configured_dest@,
            m.active_dest@ == configured_dest@,
            !m.dest_online,
            m.last_sent_status is None,
            m.last_status_check is None,
            m.retry_ms == spec_secs_to_ms(retry_interval_seconds),
            m.notified@ == Seq::<ConnectivityState>::empty(),
    {
        ReachabilityMonitor {
            target_index,
            configured_dest: configured_dest.to_owned(),
            active_dest: configured_dest.to_owned(),
            dest_online: false,
            last_sent_status: None,
            last_status_check: None,
            retry_ms: secs_to_ms(retry_interval_seconds),
            resolver,
            notified: Ghost(Seq::empty()),
        }
    }

    /// The destination currently in use.
    pub fn active_dest(&self) -> (r: &str)
        ensures
            r@ == self.active_dest@,
    {
        self.active_dest.as_str()
    }

    /// Whether the destination is currently online.
    pub fn is_dest_online(&self) -> (r: bool)
        ensures
            r == self.dest_online,
    {
        self.dest_online
    }

    /// Whether a probe is due at `now`: never probed, or at least one retry interval since
    /// the last.
    pub open spec fn probe_due(&self, now: u64) -> bool {
        match self.last_status_check {
            None => true,
            Some(last) => (if now >= last { now - last } else { 0 }) >= self.retry_ms,
        }
    }

    /// Whether a probe is due: never probed, or at least one retry interval since the last.
    pub fn should_check_reachability(&self, now: u64) -> (r: bool)
        ensures
            r == self.probe_due(now),
    {
        match self.last_status_check {
            None => true,
            Some(last) => now.saturating_sub(last) >= self.retry_ms,
        }
    }

    /// Records that the target is `online`, notifying the observer only when the state
    /// differs from the last one sent.
    fn set_status<O: SyncStatusObserver + ?Sized>(&mut self, online: bool, observer: Option<&Arc<O>>)
        ensures
            final(self).dest_online == online,
            final(self).last_sent_status == Some(state_of(online)),
            final(self).target_index == old(self).target_index,
            final(self).configured_dest == old(self).configured_dest,
            final(self).active_dest == old(self).active_dest,
            final(self).last_status_check == old(self).last_status_check,
            final(self).retry_ms == old(self).retry_ms,
            reported(old(self).notified@, final(self).notified@, old(self).last_sent_status, online, observer is Some),
    {
        self.dest_online = online;
        let new_state = if online { ConnectivityState::Online } else { ConnectivityState::Offline };
        let changed = match self.last_sent_status {
            Some(s) => s != new_state,
            None => true,
        };
        if changed {
            match observer {
                Some(obs) => {
                    obs.on_target_status_change(self.target_index, new_state);
                    proof {
                        self.notified = Ghost(self.notified@.push(new_state));
                    }
                },
                None => {},
            }
            self.last_sent_status = Some(new_state);
        }
    }

    /// Probes the destination at time `now`: takes the resolved alternate path if it is
    /// accessible, else the configured path (online if accessible), and reports a
    /// changed status to the observer.
    pub fn check_reachability<O: SyncStatusObserver + ?Sized>(&mut self, now: u64, observer: Option<&Arc<O>>)
        ensures
            final(self).last_status_check == Some(now),
            exists|resolved: Seq<char>, ra: bool, ca: bool|
                #[trigger] probe_result(old(self).configured_dest@, resolved, ra, ca) == (
                    final(self).active_dest@,
                    final(self).dest_online,
                ),
            final(self).last_sent_status == Some(state_of(final(self).dest_online)),
            final(self).target_index == old(self).target_index,
            final(self).configured_dest == old(self).configured_dest,
            final(self).retry_ms == old(self).retry_ms,
            reported(old(self).notified@, final(self).notified@, old(self).last_sent_status, final(self).dest_online, observer is Some),
    {
        let resolved = self.resolver.try_resolve_alternate_path(self.configured_dest.as_str());
        let resolved_accessible = self.resolver.is_destination_accessible(resolved.as_str());
        let same = str_eq(resolved.as_str(), self.configured_dest.as_str());
        let configured_accessible = if !resolved_accessible && !same {
            self.resolver.is_destination_accessible(self.configured_dest.as_str())
        } else {
            false
        };
        let ghost r = resolved@;
        self.record_probe(now, resolved, resolved_accessible, configured_accessible, observer);
        assert(probe_result(old(self).configured_dest@, r, resolved_accessible, configured_accessible) == (
            self.active_dest@,
            self.dest_online,
        ));
    }

    /// Takes in what a probe at `now` found: the alternate path `resolved`, whether it is
    /// accessible, and whether the configured path is; moves to the path and state that
    /// [`probe_result`] gives, and reports a changed status to the observer.
    pub fn record_probe<O: SyncStatusObserver + ?Sized>(
        &mut self,
        now: u64,
        resolved: String,
        resolved_accessible: bool,
        configured_accessible: bool,
        observer: Option<&Arc<O>>,
    )
        ensures
            final(self).last_status_check == Some(now),
            (final(self).active_dest@, final(self).dest_online) == probe_result(
                old(self).configured_dest@,
                resolved@,
                resolved_accessible,
                configured_accessible,
            ),
            final(self).last_sent_status == Some(state_of(final(self).dest_online)),
            final(self).target_index == old(self).target_index,
            final(self).configured_dest == old(self).configured_dest,
            final(self).retry_ms == old(self).retry_ms,
            reported(old(self).notified@, final(self).notified@, old(self).last_sent_status, final(self).dest_online, observer is Some),
    {
        self.last_status_check = Some(now);
        let same = str_eq(resolved.as_str(), self.configured_dest.as_str());
        if resolved_accessible {
            self.active_dest = resolved;
            self.set_status(true, observer);
        } else if configured_accessible && !same {
            self.active_dest = self.configured_dest.clone();
            self.set_status(true, observer);
        } else {
            self.active_dest = self.configured_dest.clone();
            self.set_status(false, observer);
        }
    }

    /// Marks the target offline, notifying the observer if that changes the reported state.
    pub fn mark_offline<O: SyncStatusObserver + ?Sized>(&mut self, observer: Option<&Arc<O>>)
        ensures
            !final(self).dest_online,
            final(self).last_sent_status == Some(ConnectivityState::Offline),
            final(self).target_index == old(self).target_index,
            final(self).configured_dest == old(self).configured_dest,
            final(self).active_dest == old(self).active_dest,
            final(self).last_status_check == old(self).last_status_check,
            final(self).retry_ms == old(self).retry_ms,
            reported(old(self).notified@, final(self).notified@, old(self).last_sent_status, false, observer is Some),
    {
        self.set_status(false, observer);
    }

    /// Marks the target online, notifying the observer if that changes the reported state.
    pub fn mark_online<O: SyncStatusObserver + ?Sized>(&mut self, observer: Option<&Arc<O>>)
        ensures
            final(self).dest_online,
            final(self).last_sent_status == Some(ConnectivityState::Online),
            final(self).target_index == old(self).target_index,
            final(self).configured_dest == old(self).configured_dest,
            final(self).active_dest == old(self).active_dest,
            final(self).last_status_check == old(self).last_status_check,
            final(self).retry_ms == old(self).retry_ms,
            reported(old(self).notified@, final(self).notified@, old(self).last_sent_status, true, observer is Some),
    {
        self.set_status(true, observer);
    }
}

} // verus!
