//! Data model and interface-selection state of the network widget. The
//! backend polls the operating system for interface counters and hands the
//! totals in; everything the widget decides — which interface is current,
//! the per-tick deltas, the bounded history, the view mode — is here.

use vstd::prelude::*;

verus! {

/// What the network widget currently shows.
#[derive(Debug, Clone, Copy, PartialEq, Eq, Structural)]
pub enum ViewMode {
    /// Receive/transmit rates of the current interface.
    IOStats,
    /// Session totals per interface.
    InterfaceUsage,
}

/// One interface's session totals.
#[derive(Debug, Clone)]
pub struct InterfaceInfo {
    /// Interface name.
    pub name: String,
    /// Bytes received this session.
    pub total_rx: u64,
    /// Bytes transmitted this session.
    pub total_tx: u64,
    /// Link speed in Mbps, when known.
    pub max_speed: Option<u64>,
}

/// The network widget's decision state: the interface list and which one is
/// current, the per-tick rate history, and the view mode.
pub struct NetworkState {
    /// The interface names, in discovery order.
    pub interfaces: Vec<String>,
    /// Index of the current interface in `interfaces`.
    pub current_idx: usize,
    /// Received bytes per tick, oldest first, at most `max_history` long.
    pub rx_history: Vec<u64>,
    /// Transmitted bytes per tick, oldest first.
    pub tx_history: Vec<u64>,
    /// The receive counter at the previous poll.
    pub last_rx: u64,
    /// The transmit counter at the previous poll.
    pub last_tx: u64,
    /// Session totals per interface.
    pub interface_info: Vec<InterfaceInfo>,
    /// How many history samples are kept.
    pub max_history: usize,
    /// What the widget shows.
    pub view_mode: ViewMode,
}

impl NetworkState {
    /// Well-formed selection: the current index points into the interface
    /// list whenever the list is not empty.
    pub open spec fn wf(&self) -> bool {
        self.interfaces@.len() == 0 || self.current_idx < self.interfaces@.len()
    }

    /// Step to the next interface, wrapping at the end, and reset the
    /// current totals; with no interfaces nothing changes.
    pub fn next_interface(&mut self)
        requires
            old(self).wf(),
        ensures
            final(self).wf(),
            old(self).interfaces@.len() == 0 ==> *final(self) == *old(self),
            old(self).interfaces@.len() > 0 ==> final(self).current_idx == (old(self).current_idx
                + 1) as int % old(self).interfaces@.len() as int,
            final(self).interfaces == old(self).interfaces,
            final(self).view_mode == old(self).view_mode,
            final(self).max_history == old(self).max_history,
    {
        if self.interfaces.len() > 0 {
            self.current_idx = (self.current_idx + 1) % self.interfaces.len();
            self.reset_current_totals();
        }
    }

    /// Step to the previous interface, wrapping at the front, and reset the
    /// current totals; with no interfaces nothing changes.
    pub fn prev_interface(&mut self)
        requires
            old(self).wf(),
        ensures
            final(self).wf(),
            old(self).interfaces@.len() == 0 ==> *final(self) == *old(self),
            old(self).interfaces@.len() > 0 ==> final(self).current_idx == if old(
                self,
            ).current_idx == 0 {
                (old(self).interfaces@.len() - 1) as int
            } else {
                old(self).current_idx - 1
            },
            final(self).interfaces == old(self).interfaces,
            final(self).view_mode == old(self).view_mode,
            final(self).max_history == old(self).max_history,
    {
        if self.interfaces.len() > 0 {
            if self.current_idx == 0 {
                self.current_idx = self.interfaces.len() - 1;
            } else {
                self.current_idx = self.current_idx - 1;
            }
            self.reset_current_totals();
        }
    }

    /// Clear the current interface's session totals and the rate history.
    pub fn reset_current_totals(&mut self)
        ensures
            final(self).rx_history@ == Seq::<u64>::empty(),
            final(self).tx_history@ == Seq::<u64>::empty(),
            final(self).last_rx == 0,
            final(self).last_tx == 0,
            final(self).interfaces == old(self).interfaces,
            final(self).current_idx == old(self).current_idx,
            final(self).view_mode == old(self).view_mode,
            final(self).max_history == old(self).max_history,
            final(self).interface_info@.len() == old(self).interface_info@.len(),
            old(self).current_idx < old(self).interface_info@.len() ==> {
                &&& final(self).interface_info@[old(self).current_idx as int].total_rx == 0
                &&& final(self).interface_info@[old(self).current_idx as int].total_tx == 0
                &&& final(self).interface_info@[old(self).current_idx as int].name == old(
                    self,
                ).interface_info@[old(self).current_idx as int].name
            },
            forall|j: int|
                0 <= j < old(self).interface_info@.len() && j != old(self).current_idx
                    ==> final(self).interface_info@[j] == old(self).interface_info@[j],
    {
        if self.current_idx < self.interface_info.len() {
            let idx = self.current_idx;
            let entry = &self.interface_info[idx];
            let cleared = InterfaceInfo {
                name: entry.name.clone(),
                total_rx: 0,
                total_tx: 0,
                max_speed: entry.max_speed,
            };
            self.interface_info[idx] = cleared;
        }
        self.rx_history.clear();
        self.tx_history.clear();
        self.last_rx = 0;
        self.last_tx = 0;
    }

    /// Flip between the rate view and the per-interface usage view.
    pub fn toggle_view(&mut self)
        ensures
            final(self).view_mode == match old(self).view_mode {
                ViewMode::IOStats => ViewMode::InterfaceUsage,
                ViewMode::InterfaceUsage => ViewMode::IOStats,
            },
            final(self).interfaces == old(self).interfaces,
            final(self).current_idx == old(self).current_idx,
            final(self).rx_history == old(self).rx_history,
            final(self).tx_history == old(self).tx_history,
    {
        self.view_mode = match self.view_mode {
            ViewMode::IOStats => ViewMode::InterfaceUsage,
            ViewMode::InterfaceUsage => ViewMode::IOStats,
        };
    }

    /// The latest receive rate: the newest history sample, zero before the
    /// first one.
    pub fn get_current_rx_rate(&self) -> (r: u64)
        ensures
            r == if self.rx_history@.len() > 0 {
                self.rx_history@.last()
            } else {
                0u64
            },
    {
        if self.rx_history.len() > 0 {
            self.rx_history[self.rx_history.len() - 1]
        } else {
            0
        }
    }

    /// The latest transmit rate.
    pub fn get_current_tx_rate(&self) -> (r: u64)
        ensures
            r == if self.tx_history@.len() > 0 {
                self.tx_history@.last()
            } else {
                0u64
            },
    {
        if self.tx_history.len() > 0 {
            self.tx_history[self.tx_history.len() - 1]
        } else {
            0
        }
    }
}

} // verus!
