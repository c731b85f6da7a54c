//! The worker's settings.

use vstd::prelude::*;

verus! {

/// Port on which the health probe listens unless the settings name another.
pub const DEFAULT_PROBE_PORT: u16 = 8080;

/// A socket address: an IP address, version 4 or 6, and a port.
#[derive(Clone, Copy, Debug, PartialEq, Eq)]
pub enum ProbeAddr {
    V4 { octets: [u8; 4], port: u16 },
    V6 { segments: [u16; 8], port: u16, flowinfo: u32, scope_id: u32 },
}

/// Mathematical model of a [`ProbeAddr`].
pub enum ProbeAddrView {
    V4 { octets: Seq<u8>, port: u16 },
    V6 { segments: Seq<u16>, port: u16, flowinfo: u32, scope_id: u32 },
}

impl View for ProbeAddr {
    type V = ProbeAddrView;

    open spec fn view(&self) -> ProbeAddrView {
        match self {
            ProbeAddr::V4 { octets, port } => ProbeAddrView::V4 { octets: octets@, port: *port },
            ProbeAddr::V6 { segments, port, flowinfo, scope_id } => ProbeAddrView::V6 {
                segments: segments@,
                port: *port,
                flowinfo: *flowinfo,
                scope_id: *scope_id,
            },
        }
    }
}

/// Every interface, version 4, on the default port.
pub open spec fn default_probe_addr() -> ProbeAddrView {
    ProbeAddrView::V4 { octets: seq![0u8, 0u8, 0u8, 0u8], port: DEFAULT_PROBE_PORT }
}

/// What a worker is started with. It never changes afterwards.
#[derive(Clone, Debug, PartialEq, Eq)]
pub struct Settings {
    /// Where the health probe listens.
    pub status_probe_addr: ProbeAddr,
    /// The queue to drain.
    pub queue_url: String,
}

/// Mathematical model of [`Settings`].
pub struct SettingsView {
    pub status_probe_addr: ProbeAddrView,
    pub queue_url: Seq<char>,
}

impl View for Settings {
    type V = SettingsView;

    open spec fn view(&self) -> SettingsView {
        SettingsView { status_probe_addr: self.status_probe_addr@, queue_url: self.queue_url@ }
    }
}

impl Settings {
    /// The address of the health probe where none is configured.
    pub fn default_status_probe_addr() -> (addr: ProbeAddr)
        ensures
            addr@ == default_probe_addr(),
    {
        let octets: [u8; 4] = [0, 0, 0, 0];
        assert(octets@ =~= seq![0u8, 0u8, 0u8, 0u8]);
        ProbeAddr::V4 { octets, port: DEFAULT_PROBE_PORT }
    }

    /// The settings for the queue at `queue_url`, with the health probe at
    /// `status_probe_addr` or, where that is `None`, at the default address.
    pub fn new(queue_url: String, status_probe_addr: Option<ProbeAddr>) -> (settings: Settings)
        ensures
            settings@ == (SettingsView {
                status_probe_addr: match status_probe_addr {
                    Some(addr) => addr@,
                    None => default_probe_addr(),
                },
                queue_url: queue_url@,
            }),
    {
        let status_probe_addr = match status_probe_addr {
            Some(addr) => addr,
            None => Settings::default_status_probe_addr(),
        };
        Settings { status_probe_addr, queue_url }
    }
}

} // verus!
