//! What the host network is set up with, and the record of what was made for it.
use crate::model::{copy_list, copy_opt, same_list, same_opt, view_opt, views, Model};
use crate::table::ByName;
use crate::text::same;
use vstd::prelude::*;

verus! {

/// The bridge of a host and the link to the world outside that it has, if any.
#[derive(Clone, Debug, PartialEq, Eq)]
pub struct HostNetworkConfig {
    pub bridge_name: String,
    pub uplink: Option<String>,
}

/// The view of [`HostNetworkConfig`].
#[verifier::ext_equal]
pub struct HostNetworkConfigView {
    pub bridge_name: Seq<char>,
    pub uplink: Option<Seq<char>>,
}

impl View for HostNetworkConfig {
    type V = HostNetworkConfigView;

    open spec fn view(&self) -> HostNetworkConfigView {
        HostNetworkConfigView {
            bridge_name: self.bridge_name@,
            uplink: view_opt(self.uplink),
        }
    }
}

impl Model for HostNetworkConfig {
    fn copy(&self) -> (r: Self) {
        HostNetworkConfig {
            bridge_name: self.bridge_name.clone(),
            uplink: copy_opt(&self.uplink),
        }
    }

    fn same_as(&self, other: &Self) -> (r: bool) {
        same(self.bridge_name.as_str(), other.bridge_name.as_str())
            && same_opt(&self.uplink, &other.uplink)
    }
}

/// Who may open the tap devices that are made, for consumers that open a device which exists
/// already.
#[derive(Clone, Debug, PartialEq, Eq)]
pub struct TapAccess {
    pub user: String,
    pub group: String,
}

/// The view of [`TapAccess`].
#[verifier::ext_equal]
pub struct TapAccessView {
    pub user: Seq<char>,
    pub group: Seq<char>,
}

impl View for TapAccess {
    type V = TapAccessView;

    open spec fn view(&self) -> TapAccessView {
        TapAccessView {
            user: self.user@,
            group: self.group@,
        }
    }
}

impl Model for TapAccess {
    fn copy(&self) -> (r: Self) {
        TapAccess {
            user: self.user.clone(),
            group: self.group.clone(),
        }
    }

    fn same_as(&self, other: &Self) -> (r: bool) {
        same(self.user.as_str(), other.user.as_str())
            && same(self.group.as_str(), other.group.as_str())
    }
}

/// The tap device that a port of an instance needs.
#[derive(Clone, Debug, PartialEq, Eq)]
pub struct TapSpec {
    pub instance_id: String,
    pub port_id: String,
    pub mac: String,
}

/// The view of [`TapSpec`].
#[verifier::ext_equal]
pub struct TapSpecView {
    pub instance_id: Seq<char>,
    pub port_id: Seq<char>,
    pub mac: Seq<char>,
}

impl View for TapSpec {
    type V = TapSpecView;

    open spec fn view(&self) -> TapSpecView {
        TapSpecView {
            instance_id: self.instance_id@,
            port_id: self.port_id@,
            mac: self.mac@,
        }
    }
}

impl Model for TapSpec {
    fn copy(&self) -> (r: Self) {
        TapSpec {
            instance_id: self.instance_id.clone(),
            port_id: self.port_id.clone(),
            mac: self.mac.clone(),
        }
    }

    fn same_as(&self, other: &Self) -> (r: bool) {
        same(self.instance_id.as_str(), other.instance_id.as_str())
            && same(self.port_id.as_str(), other.port_id.as_str())
            && same(self.mac.as_str(), other.mac.as_str())
    }
}

/// The address that may be added to the managed bridge.
#[derive(Clone, Copy, Debug, PartialEq, Eq, Structural)]
pub struct GatewaySpec {
    pub address: u32,
    pub prefix_len: u8,
}

impl View for GatewaySpec {
    type V = GatewaySpec;

    open spec fn view(&self) -> GatewaySpec {
        *self
    }
}

impl Model for GatewaySpec {
    fn copy(&self) -> (r: Self) {
        *self
    }

    fn same_as(&self, other: &Self) -> (r: bool) {
        *self == *other
    }
}

/// The recorded gateway address of the bridge.
#[derive(Clone, Copy, Debug, PartialEq, Eq, Structural)]
pub struct GatewayOwnership {
    pub address: u32,
    pub prefix_len: u8,
}

impl View for GatewayOwnership {
    type V = GatewayOwnership;

    open spec fn view(&self) -> GatewayOwnership {
        *self
    }
}

impl Model for GatewayOwnership {
    fn copy(&self) -> (r: Self) {
        *self
    }

    fn same_as(&self, other: &Self) -> (r: bool) {
        *self == *other
    }
}

/// The record of the bridge.
#[derive(Clone, Debug, PartialEq, Eq)]
pub struct BridgeOwnership {
    pub name: String,
    pub uplink: Option<String>,
    pub created_by_o3k: bool,
    /// The index and the hardware address that the bridge had when it was made.
    pub identity: Option<String>,
    pub gateway: Option<GatewayOwnership>,
}

/// The view of [`BridgeOwnership`].
#[verifier::ext_equal]
pub struct BridgeOwnershipView {
    pub name: Seq<char>,
    pub uplink: Option<Seq<char>>,
    pub created_by_o3k: bool,
    pub identity: Option<Seq<char>>,
    pub gateway: Option<GatewayOwnership>,
}

impl View for BridgeOwnership {
    type V = BridgeOwnershipView;

    open spec fn view(&self) -> BridgeOwnershipView {
        BridgeOwnershipView {
            name: self.name@,
            uplink: view_opt(self.uplink),
            created_by_o3k: self.created_by_o3k,
            identity: view_opt(self.identity),
            gateway: view_opt(self.gateway),
        }
    }
}

impl Model for BridgeOwnership {
    fn copy(&self) -> (r: Self) {
        BridgeOwnership {
            name: self.name.clone(),
            uplink: copy_opt(&self.uplink),
            created_by_o3k: self.created_by_o3k,
            identity: copy_opt(&self.identity),
            gateway: copy_opt(&self.gateway),
        }
    }

    fn same_as(&self, other: &Self) -> (r: bool) {
        same(self.name.as_str(), other.name.as_str())
            && same_opt(&self.uplink, &other.uplink)
            && self.created_by_o3k == other.created_by_o3k
            && same_opt(&self.identity, &other.identity)
            && same_opt(&self.gateway, &other.gateway)
    }
}

/// The record of a tap device.
#[derive(Clone, Debug, PartialEq, Eq)]
pub struct TapOwnership {
    pub interface: String,
    pub instance_id: String,
    pub port_id: String,
    pub mac: String,
    pub bridge: String,
    pub created_by_o3k: bool,
}

/// The view of [`TapOwnership`].
#[verifier::ext_equal]
pub struct TapOwnershipView {
    pub interface: Seq<char>,
    pub instance_id: Seq<char>,
    pub port_id: Seq<char>,
    pub mac: Seq<char>,
    pub bridge: Seq<char>,
    pub created_by_o3k: bool,
}

impl View for TapOwnership {
    type V = TapOwnershipView;

    open spec fn view(&self) -> TapOwnershipView {
        TapOwnershipView {
            interface: self.interface@,
            instance_id: self.instance_id@,
            port_id: self.port_id@,
            mac: self.mac@,
            bridge: self.bridge@,
            created_by_o3k: self.created_by_o3k,
        }
    }
}

impl Model for TapOwnership {
    fn copy(&self) -> (r: Self) {
        TapOwnership {
            interface: self.interface.clone(),
            instance_id: self.instance_id.clone(),
            port_id: self.port_id.clone(),
            mac: self.mac.clone(),
            bridge: self.bridge.clone(),
            created_by_o3k: self.created_by_o3k,
        }
    }

    fn same_as(&self, other: &Self) -> (r: bool) {
        same(self.interface.as_str(), other.interface.as_str())
            && same(self.instance_id.as_str(), other.instance_id.as_str())
            && same(self.port_id.as_str(), other.port_id.as_str())
            && same(self.mac.as_str(), other.mac.as_str())
            && same(self.bridge.as_str(), other.bridge.as_str())
            && self.created_by_o3k == other.created_by_o3k
    }
}

/// A record of a tap device under its key.
#[derive(Clone, Debug, PartialEq, Eq)]
pub struct TapEntry {
    pub key: String,
    pub tap: TapOwnership,
}

/// The view of [`TapEntry`].
#[verifier::ext_equal]
pub struct TapEntryView {
    pub key: Seq<char>,
    pub tap: TapOwnershipView,
}

impl View for TapEntry {
    type V = TapEntryView;

    open spec fn view(&self) -> TapEntryView {
        TapEntryView {
            key: self.key@,
            tap: self.tap@,
        }
    }
}

impl Model for TapEntry {
    fn copy(&self) -> (r: Self) {
        TapEntry {
            key: self.key.clone(),
            tap: self.tap.copy(),
        }
    }

    fn same_as(&self, other: &Self) -> (r: bool) {
        same(self.key.as_str(), other.key.as_str())
            && self.tap.same_as(&other.tap)
    }
}

impl ByName for TapEntry {
    open spec fn name_of(v: TapEntryView) -> Seq<char> {
        v.key
    }

    fn name(&self) -> (r: &str) {
        self.key.as_str()
    }
}

/// The durable record of what the manager may change or remove on the host. The tap devices are
/// in the order of their keys.
#[derive(Clone, Debug, PartialEq, Eq)]
pub struct NetworkOwnershipManifest {
    pub bridge: Option<BridgeOwnership>,
    pub taps: Vec<TapEntry>,
}

/// The view of [`NetworkOwnershipManifest`].
#[verifier::ext_equal]
pub struct NetworkOwnershipManifestView {
    pub bridge: Option<BridgeOwnershipView>,
    pub taps: Seq<TapEntryView>,
}

impl View for NetworkOwnershipManifest {
    type V = NetworkOwnershipManifestView;

    open spec fn view(&self) -> NetworkOwnershipManifestView {
        NetworkOwnershipManifestView {
            bridge: view_opt(self.bridge),
            taps: views(self.taps@),
        }
    }
}

impl Model for NetworkOwnershipManifest {
    fn copy(&self) -> (r: Self) {
        NetworkOwnershipManifest {
            bridge: copy_opt(&self.bridge),
            taps: copy_list(&self.taps),
        }
    }

    fn same_as(&self, other: &Self) -> (r: bool) {
        same_opt(&self.bridge, &other.bridge)
            && same_list(&self.taps, &other.taps)
    }
}

impl NetworkOwnershipManifestView {
    /// The record of nothing.
    pub open spec fn none() -> NetworkOwnershipManifestView {
        NetworkOwnershipManifestView { bridge: None, taps: Seq::empty() }
    }
}

impl Default for NetworkOwnershipManifest {
    fn default() -> (r: NetworkOwnershipManifest)
        ensures
            r@ == NetworkOwnershipManifestView::none(),
    {
        let r = NetworkOwnershipManifest { bridge: None, taps: Vec::new() };
        assert(r@.taps =~= Seq::<TapEntryView>::empty());
        r
    }
}

} // verus!
