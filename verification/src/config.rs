//! Configuration data: the shape of the node's configuration file and the
//! derived queue-monitor polling interval.

use vstd::prelude::*;

verus! {

/// The top level of the node's configuration file.
#[derive(Clone, Debug)]
pub struct EtcLqos {
    /// The directory in which the shaper is installed.
    pub lqos_directory: String,
    /// How frequently the queue monitor reads scheduler statistics, in ms.
    pub queue_check_period_ms: u64,
    /// If present, how the XDP bridge operates.
    pub bridge: Option<BridgeConfig>,
    /// If present, sysctl and ethtool tweaks to apply.
    pub tuning: Option<Tunables>,
}

/// A set of sysctl and ethtool tweaks that may be applied at startup.
#[derive(Clone, PartialEq, Eq, Debug)]
pub struct Tunables {
    /// Stop the irq_balance system service?
    pub stop_irq_balance: bool,
    /// The netdev budget in microseconds.
    pub netdev_budget_usecs: u32,
    /// The netdev budget in packets.
    pub netdev_budget_packets: u32,
    /// The receive-side polling frequency.
    pub rx_usecs: u32,
    /// The transmit-side polling frequency.
    pub tx_usecs: u32,
    /// Disable receive-side VLAN offloading?
    pub disable_rxvlan: bool,
    /// Disable transmit-side VLAN offloading?
    pub disable_txvlan: bool,
    /// The ethtool offloads to disable.
    pub disable_offload: Vec<String>,
}

/// Parameters of the XDP bridge accelerator.
#[derive(Clone, Debug)]
pub struct BridgeConfig {
    /// Should the XDP bridge be enabled?
    pub use_xdp_bridge: bool,
    /// The interface mappings.
    pub interface_mapping: Vec<BridgeInterface>,
    /// The VLAN mappings.
    pub vlan_mapping: Vec<BridgeVlan>,
}

/// One interface within the XDP bridge.
#[derive(Clone, Debug)]
pub struct BridgeInterface {
    /// The interface name, as known to the kernel.
    pub name: String,
    /// Should VLAN tags decide the redirect policy?
    pub scan_vlans: bool,
    /// The interface that traffic arriving on `name` is redirected to.
    pub redirect_to: String,
}

/// One VLAN redirect rule: a tag seen on the parent interface is moved to
/// the destination tag.
#[derive(Clone, Debug)]
pub struct BridgeVlan {
    /// The parent interface name on which the VLAN occurs.
    pub parent: String,
    /// The VLAN tag to redirect if matched.
    pub tag: u32,
    /// The destination VLAN tag if matched.
    pub redirect_to: u32,
}

/// The queue monitor's polling interval: the configured period, or one
/// second where no configuration could be read.
pub fn queue_check_interval_ms(config: Option<&EtcLqos>) -> (r: u64)
    ensures
        r == (match config {
            Some(c) => c.queue_check_period_ms,
            None => 1000u64,
        }),
{
    match config {
        Some(c) => c.queue_check_period_ms,
        None => 1000,
    }
}

} // verus!
