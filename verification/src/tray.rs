//! Status model behind the system tray: per-destination connectivity, source and watcher
//! state, the overall health derived from them, and the texts shown to the user.

use vstd::prelude::*;
use crate::error::SyncError;
use crate::text::{push_str, push_decimal, decimal, str_eq};
use crate::types::{ConnectivityState, WatcherState};

verus! {

/// Overall status of the synchronisation engine, as shown by the tray icon.
#[derive(Debug, Clone, Copy, PartialEq, Eq, Hash, Structural)]
pub enum EngineStatus {
    /// Source and every destination are online.
    Healthy,
    /// Some (but not all) destinations are offline.
    Degraded,
    /// The source directory or its watcher is down.
    SourceOffline,
    /// Every destination is offline.
    DestinationOffline,
    /// Source and every destination are down.
    BothOffline,
}

impl EngineStatus {
    /// Number of statuses.
    pub const COUNT: usize = 5;

    /// The position of the status in declaration order.
    pub open spec fn spec_index(self) -> nat {
        match self {
            EngineStatus::Healthy => 0,
            EngineStatus::Degraded => 1,
            EngineStatus::SourceOffline => 2,
            EngineStatus::DestinationOffline => 3,
            EngineStatus::BothOffline => 4,
        }
    }

    /// The position of the status in declaration order (used to index icon tables).
    pub fn index(self) -> (r: usize)
        ensures
            r == self.spec_index(),
            r < Self::COUNT,
    {
        match self {
            EngineStatus::Healthy => 0,
            EngineStatus::Degraded => 1,
            EngineStatus::SourceOffline => 2,
            EngineStatus::DestinationOffline => 3,
            EngineStatus::BothOffline => 4,
        }
    }

    /// All statuses in declaration order.
    pub fn all() -> (r: [EngineStatus; 5])
        ensures
            forall|i: int| 0 <= i < 5 ==> (#[trigger] r@[i]).spec_index() == i,
    {
        [
            EngineStatus::Healthy,
            EngineStatus::Degraded,
            EngineStatus::SourceOffline,
            EngineStatus::DestinationOffline,
            EngineStatus::BothOffline,
        ]
    }
}

/// Distinct statuses have distinct indices.
pub proof fn lemma_index_injective(a: EngineStatus, b: EngineStatus)
    ensures
        a.spec_index() == b.spec_index() ==> a == b,
{
}

/// Whether the tray icon must be replaced: the status differs from the last one painted.
pub fn icon_needs_update(last_icon_status: Option<EngineStatus>, status: EngineStatus) -> (r: bool)
    ensures
        r == (last_icon_status != Some(status)),
{
    match last_icon_status {
        Some(s) => s != status,
        None => true,
    }
}

/// Reason the tray event loop exited.
#[derive(Debug, Clone, Copy, PartialEq, Eq, Structural)]
pub enum TrayExitReason {
    /// The user chose "Exit".
    UserExit,
    /// The user chose "Reload Config"; the process should be started again.
    Restart,
}

/// How a destination is labelled: its path, followed by ` -> ` and the resolved UNC path
/// when there is one.
pub open spec fn destination_label(path: Seq<char>, unc: Option<Seq<char>>) -> Seq<char> {
    match unc {
        None => path,
        Some(u) => path + " -> "@ + u,
    }
}

/// A destination target as shown by the tray.
#[derive(Debug, Clone, PartialEq, Eq)]
pub struct DestinationState {
    path: String,
    is_online: ConnectivityState,
    resolved_unc: Option<String>,
    display_label: String,
}

impl DestinationState {
    /// The destination path.
    pub closed spec fn spec_path(&self) -> Seq<char> {
        self.path@
    }

    /// The destination's connectivity.
    pub closed spec fn spec_online(&self) -> ConnectivityState {
        self.is_online
    }

    /// The resolved UNC path, if any.
    pub closed spec fn spec_unc(&self) -> Option<Seq<char>> {
        match self.resolved_unc {
            Some(u) => Some(u@),
            None => None,
        }
    }

    /// The label shown to the user.
    pub closed spec fn spec_label(&self) -> Seq<char> {
        self.display_label@
    }

    /// A destination at `path` with the given connectivity and no resolved UNC path.
    pub fn new(path: &str, is_online: bool) -> (d: Self)
        ensures
            d.spec_path() == path@,
            d.spec_online() == (if is_online {
                ConnectivityState::Online
            } else {
                ConnectivityState::Offline
            }),
            d.spec_unc() is None,
            d.spec_label() == destination_label(path@, None),
    {
        DestinationState {
            path: path.to_owned(),
            is_online: if is_online {
                ConnectivityState::Online
            } else {
                ConnectivityState::Offline
            },
            resolved_unc: None,
            display_label: path.to_owned(),
        }
    }

    /// The same destination with `resolved_unc` attached and the label recomputed.
    pub fn with_resolved_unc(self, resolved_unc: Option<&str>) -> (d: Self)
        ensures
            d.spec_path() == self.spec_path(),
            d.spec_online() == self.spec_online(),
            d.spec_unc() == match resolved_unc {
                Some(u) => Some(u@),
                None => None::<Seq<char>>,
            },
            d.spec_label() == destination_label(self.spec_path(), d.spec_unc()),
    {
        let mut label = self.path.clone();
        let unc = match resolved_unc {
            Some(u) => {
                push_str(&mut label, " -> ");
                push_str(&mut label, u);
                Some(u.to_owned())
            },
            None => None,
        };
        DestinationState {
            path: self.path,
            is_online: self.is_online,
            resolved_unc: unc,
            display_label: label,
        }
    }

    /// The destination path.
    pub fn path(&self) -> (r: &str)
        ensures
            r@ == self.spec_path(),
    {
        self.path.as_str()
    }

    /// The destination's connectivity.
    pub fn is_online(&self) -> (r: ConnectivityState)
        ensures
            r == self.spec_online(),
    {
        self.is_online
    }

    /// The resolved UNC path, if any.
    pub fn resolved_unc(&self) -> (r: Option<&str>)
        ensures
            match r {
                Some(u) => self.spec_unc() == Some(u@),
                None => self.spec_unc() is None,
            },
    {
        match &self.resolved_unc {
            Some(u) => Some(u.as_str()),
            None => None,
        }
    }

    /// The label shown to the user.
    pub fn display_label(&self) -> (r: &str)
        ensures
            r@ == self.spec_label(),
    {
        self.display_label.as_str()
    }
}

/// The text of a destination's menu entry: a filled or hollow dot, its label and its status.
pub open spec fn dest_menu_text(label: Seq<char>, online: bool) -> Seq<char> {
    (if online { "●"@ } else { "○"@ }) + " "@ + label + " ("@ + (if online { "Online"@ } else {
        "Offline"@
    }) + ")"@
}

/// Exec form of [`dest_menu_text`].
pub fn dest_menu_label(label: &str, online: bool) -> (r: String)
    ensures
        r@ == dest_menu_text(label@, online),
{
    let mut s = String::new();
    if online {
        push_str(&mut s, "●");
    } else {
        push_str(&mut s, "○");
    }
    push_str(&mut s, " ");
    push_str(&mut s, label);
    push_str(&mut s, " (");
    if online {
        push_str(&mut s, "Online");
    } else {
        push_str(&mut s, "Offline");
    }
    push_str(&mut s, ")");
    s
}

/// Every destination is online (and there is at least one).
pub open spec fn all_online(d: Seq<ConnectivityState>) -> bool {
    d.len() > 0 && forall|i: int| 0 <= i < d.len() ==> d[i] == ConnectivityState::Online
}

/// Some destination is online.
pub open spec fn any_online(d: Seq<ConnectivityState>) -> bool {
    exists|i: int| 0 <= i < d.len() && d[i] == ConnectivityState::Online
}

/// Number of online destinations.
pub open spec fn count_online(d: Seq<ConnectivityState>) -> nat
    decreases d.len(),
{
    if d.len() == 0 {
        0
    } else {
        count_online(d.drop_last()) + if d.last() == ConnectivityState::Online { 1nat } else { 0nat }
    }
}

/// The overall status for a source/watcher state and destination states.
pub open spec fn status_of(source: ConnectivityState, watcher: WatcherState, d: Seq<ConnectivityState>) -> EngineStatus {
    if source != ConnectivityState::Online || watcher != WatcherState::Active {
        if !any_online(d) && d.len() > 0 {
            EngineStatus::BothOffline
        } else {
            EngineStatus::SourceOffline
        }
    } else if all_online(d) || d.len() == 0 {
        EngineStatus::Healthy
    } else if any_online(d) {
        EngineStatus::Degraded
    } else {
        EngineStatus::DestinationOffline
    }
}

/// What the overall status says of the source (with its watcher) and the destinations:
/// both down only when the source is down and no destination is online; the source down
/// alone when some destination is online (or there is none); with the source up, healthy
/// when every destination is online, degraded when some but not all are, and every
/// destination offline only when none is.
pub proof fn lemma_status_reflects_destinations(source: ConnectivityState, watcher: WatcherState, d: Seq<ConnectivityState>)
    ensures
        ({
            let up = source == ConnectivityState::Online && watcher == WatcherState::Active;
            let some_on = exists|i: int| 0 <= i < d.len() && d[i] == ConnectivityState::Online;
            let some_off = exists|i: int| 0 <= i < d.len() && d[i] != ConnectivityState::Online;
            let st = status_of(source, watcher, d);
            &&& (st == EngineStatus::BothOffline) <==> (!up && d.len() > 0 && !some_on)
            &&& (st == EngineStatus::SourceOffline) <==> (!up && (d.len() == 0 || some_on))
            &&& (st == EngineStatus::Healthy) <==> (up && !some_off)
            &&& (st == EngineStatus::Degraded) <==> (up && some_on && some_off)
            &&& (st == EngineStatus::DestinationOffline) <==> (up && d.len() > 0 && !some_on)
        }),
{
    if d.len() > 0 && !any_online(d) {
        assert(d[0] != ConnectivityState::Online);
    }
    if all_online(d) {
        assert(d[0] == ConnectivityState::Online);
    }
}

/// The source part of the tooltip.
pub open spec fn source_label(source: ConnectivityState, watcher: WatcherState) -> Seq<char> {
    match source {
        ConnectivityState::Offline => "Offline"@,
        ConnectivityState::Online => match watcher {
            WatcherState::Inactive => "Degraded"@,
            WatcherState::Active => "Online"@,
        },
    }
}

/// The tooltip for a state.
pub open spec fn tooltip_of(
    source: ConnectivityState,
    watcher: WatcherState,
    d: Seq<ConnectivityState>,
    notice: Option<Seq<char>>,
) -> Seq<char> {
    let base = "syncdir — Src: "@ + source_label(source, watcher) + " | Dests: "@ + decimal(
        count_online(d),
    ) + "/"@ + decimal(d.len()) + " Online"@;
    match notice {
        None => base,
        Some(n) => base + " | "@ + n,
    }
}

/// Connectivity and visual state tracked by the tray.
#[derive(Debug, Clone, PartialEq, Eq)]
pub struct TrayState {
    source_online: ConnectivityState,
    watcher_active: WatcherState,
    dest_online: Vec<ConnectivityState>,
    scan_notice: Option<String>,
}

impl TrayState {
    /// Source connectivity.
    pub closed spec fn spec_source(&self) -> ConnectivityState {
        self.source_online
    }

    /// Watcher state.
    pub closed spec fn spec_watcher(&self) -> WatcherState {
        self.watcher_active
    }

    /// Per-destination connectivity.
    pub closed spec fn spec_dests(&self) -> Seq<ConnectivityState> {
        self.dest_online@
    }

    /// The scan notice, if any.
    pub closed spec fn spec_notice(&self) -> Option<Seq<char>> {
        match self.scan_notice {
            Some(n) => Some(n@),
            None => None,
        }
    }

    /// A state with the source offline, the watcher inactive, the given destinations,
    /// and no notice.
    pub fn new(initial_dest_online: Vec<bool>) -> (s: Self)
        ensures
            s.spec_source() == ConnectivityState::Offline,
            s.spec_watcher() == WatcherState::Inactive,
            s.spec_dests().len() == initial_dest_online@.len(),
            forall|i: int| 0 <= i < initial_dest_online@.len() ==> (#[trigger] s.spec_dests()[i] == if initial_dest_online@[i] {
                ConnectivityState::Online
            } else {
                ConnectivityState::Offline
            }),
            s.spec_notice() is None,
    {
        let mut dests: Vec<ConnectivityState> = Vec::new();
        let mut i: usize = 0;
        while i < initial_dest_online.len()
            invariant
                i <= initial_dest_online@.len(),
                dests@.len() == i,
                forall|k: int| 0 <= k < i ==> (#[trigger] dests@[k] == if initial_dest_online@[k] {
                    ConnectivityState::Online
                } else {
                    ConnectivityState::Offline
                }),
            decreases initial_dest_online@.len() - i,
        {
            if initial_dest_online[i] {
                dests.push(ConnectivityState::Online);
            } else {
                dests.push(ConnectivityState::Offline);
            }
            i += 1;
        }
        TrayState {
            source_online: ConnectivityState::Offline,
            watcher_active: WatcherState::Inactive,
            dest_online: dests,
            scan_notice: None,
        }
    }

    /// A state with no destinations.
    pub fn empty() -> (s: Self)
        ensures
            s.spec_source() == ConnectivityState::Offline,
            s.spec_watcher() == WatcherState::Inactive,
            s.spec_dests() == Seq::<ConnectivityState>::empty(),
            s.spec_notice() is None,
    {
        let s = Self::new(Vec::new());
        assert(s.spec_dests() =~= Seq::<ConnectivityState>::empty());
        s
    }

    /// Whether the source directory is online.
    pub fn source_online(&self) -> (r: bool)
        ensures
            r == (self.spec_source() == ConnectivityState::Online),
    {
        self.source_online == ConnectivityState::Online
    }

    /// Source connectivity.
    pub fn source_connectivity(&self) -> (r: ConnectivityState)
        ensures
            r == self.spec_source(),
    {
        self.source_online
    }

    /// Whether the directory watcher is active.
    pub fn watcher_active(&self) -> (r: bool)
        ensures
            r == (self.spec_watcher() == WatcherState::Active),
    {
        self.watcher_active == WatcherState::Active
    }

    /// Watcher state.
    pub fn watcher_state(&self) -> (r: WatcherState)
        ensures
            r == self.spec_watcher(),
    {
        self.watcher_active
    }

    /// Per-destination connectivity.
    pub fn dest_online(&self) -> (r: &[ConnectivityState])
        ensures
            r@ == self.spec_dests(),
    {
        self.dest_online.as_slice()
    }

    /// Sets the connectivity of destination `target_index` and returns whether it changed;
    /// an index out of range changes nothing and returns `false`.
    pub fn update_target_status(&mut self, target_index: usize, online: bool) -> (changed: bool)
        ensures
            ({
                let state = if online { ConnectivityState::Online } else { ConnectivityState::Offline };
                &&& target_index < old(self).spec_dests().len() ==> {
                    &&& changed == (old(self).spec_dests()[target_index as int] != state)
                    &&& final(self).spec_dests() == old(self).spec_dests().update(target_index as int, state)
                }
                &&& target_index >= old(self).spec_dests().len() ==> !changed && final(self).spec_dests()
                    == old(self).spec_dests()
            }),
            final(self).spec_source() == old(self).spec_source(),
            final(self).spec_watcher() == old(self).spec_watcher(),
            final(self).spec_notice() == old(self).spec_notice(),
    {
        let state = if online { ConnectivityState::Online } else { ConnectivityState::Offline };
        if target_index < self.dest_online.len() {
            let changed = self.dest_online[target_index] != state;
            self.dest_online.set(target_index, state);
            changed
        } else {
            false
        }
    }

    /// Sets source connectivity and watcher state and returns whether either changed.
    pub fn update_watcher_status(&mut self, source_online: ConnectivityState, watcher_active: WatcherState) -> (changed: bool)
        ensures
            changed == (old(self).spec_source() != source_online || old(self).spec_watcher() != watcher_active),
            final(self).spec_source() == source_online,
            final(self).spec_watcher() == watcher_active,
            final(self).spec_dests() == old(self).spec_dests(),
            final(self).spec_notice() == old(self).spec_notice(),
    {
        let changed = self.source_online != source_online || self.watcher_active != watcher_active;
        self.source_online = source_online;
        self.watcher_active = watcher_active;
        changed
    }

    /// Sets the scan notice and returns whether it changed.
    pub fn set_scan_notice(&mut self, notice: Option<String>) -> (changed: bool)
        ensures
            changed == (old(self).spec_notice() != match notice {
                Some(n) => Some(n@),
                None => None::<Seq<char>>,
            }),
            final(self).spec_notice() == match notice {
                Some(n) => Some(n@),
                None => None::<Seq<char>>,
            },
            final(self).spec_source() == old(self).spec_source(),
            final(self).spec_watcher() == old(self).spec_watcher(),
            final(self).spec_dests() == old(self).spec_dests(),
    {
        let changed = match (&self.scan_notice, &notice) {
            (Some(a), Some(b)) => !str_eq(a.as_str(), b.as_str()),
            (None, None) => false,
            _ => true,
        };
        self.scan_notice = notice;
        changed
    }

    /// The scan notice, if any.
    pub fn scan_notice(&self) -> (r: Option<&str>)
        ensures
            match r {
                Some(n) => self.spec_notice() == Some(n@),
                None => self.spec_notice() is None,
            },
    {
        match &self.scan_notice {
            Some(n) => Some(n.as_str()),
            None => None,
        }
    }

    /// The overall engine status.
    pub fn overall_status(&self) -> (r: EngineStatus)
        ensures
            r == status_of(self.spec_source(), self.spec_watcher(), self.spec_dests()),
    {
        let n = self.dest_online.len();
        let mut all = true;
        let mut any = false;
        let mut i: usize = 0;
        while i < n
            invariant
                n == self.dest_online@.len(),
                i <= n,
                all == forall|k: int| 0 <= k < i ==> self.dest_online@[k] == ConnectivityState::Online,
                any == exists|k: int| 0 <= k < i && self.dest_online@[k] == ConnectivityState::Online,
            decreases n - i,
        {
            if self.dest_online[i] == ConnectivityState::Online {
                any = true;
            } else {
                all = false;
            }
            i += 1;
        }
        let all_dest_online = n > 0 && all;
        if self.source_online != ConnectivityState::Online || self.watcher_active != WatcherState::Active {
            if !any && n > 0 {
                EngineStatus::BothOffline
            } else {
                EngineStatus::SourceOffline
            }
        } else if all_dest_online || n == 0 {
            EngineStatus::Healthy
        } else if any {
            EngineStatus::Degraded
        } else {
            EngineStatus::DestinationOffline
        }
    }

    /// Number of online destinations.
    pub fn online_dest_count(&self) -> (r: usize)
        ensures
            r == count_online(self.spec_dests()),
            r <= self.spec_dests().len(),
    {
        let mut count: usize = 0;
        let mut i: usize = 0;
        while i < self.dest_online.len()
            invariant
                i <= self.dest_online@.len(),
                count == count_online(self.dest_online@.take(i as int)),
                count <= i,
            decreases self.dest_online@.len() - i,
        {
            assert(self.dest_online@.take(i + 1).drop_last() =~= self.dest_online@.take(i as int));
            if self.dest_online[i] == ConnectivityState::Online {
                count += 1;
            }
            i += 1;
        }
        assert(self.dest_online@.take(self.dest_online@.len() as int) =~= self.dest_online@);
        count
    }

    /// The tooltip text of the tray icon.
    pub fn tooltip_text(&self) -> (r: String)
        ensures
            r@ == tooltip_of(self.spec_source(), self.spec_watcher(), self.spec_dests(), self.spec_notice()),
    {
        let src_label: &str = match (self.source_online, self.watcher_active) {
            (ConnectivityState::Offline, _) => "Offline",
            (ConnectivityState::Online, WatcherState::Inactive) => "Degraded",
            (ConnectivityState::Online, WatcherState::Active) => "Online",
        };
        let mut text = String::new();
        push_str(&mut text, "syncdir — Src: ");
        push_str(&mut text, src_label);
        push_str(&mut text, " | Dests: ");
        let online = self.online_dest_count();
        push_decimal(&mut text, online as u64);
        push_str(&mut text, "/");
        push_decimal(&mut text, self.dest_online.len() as u64);
        push_str(&mut text, " Online");
        match &self.scan_notice {
            Some(notice) => {
                push_str(&mut text, " | ");
                push_str(&mut text, notice.as_str());
            },
            None => {},
        }
        text
    }
}

/// Actions that the tray menu triggers, implemented by the daemon.
pub trait TrayActionHandler {
    /// The user asked for a manual synchronisation.
    fn on_sync_now(&self) -> Result<(), SyncError>;

    /// The user asked to reload the configuration.
    fn on_reload_config(&self) -> Result<(), SyncError>;

    /// The user toggled start-up registration; returns the resulting registration state.
    fn on_toggle_startup(&self, enable: bool) -> Result<bool, SyncError>;

    /// Whether start-up registration is currently enabled.
    fn is_startup_enabled(&self) -> Result<bool, SyncError>;

    /// Open the configuration file in an editor; by default there is nothing to open.
    fn on_open_config(&self) -> (r: Result<(), SyncError>)
        default_ensures
            r is Ok,
    {
        Ok(())
    }

    /// Open the log directory; by default there is nothing to open.
    fn on_view_logs(&self) -> (r: Result<(), SyncError>)
        default_ensures
            r is Ok,
    {
        Ok(())
    }
}

} // verus!
