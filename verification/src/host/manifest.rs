//! What the record of the host network has to satisfy, and how it changes.
use super::config::{
    is_reference, validate_gateway, validate_ifname, validate_mac, validate_reference,
    HostNetworkError,
};
use super::types::{
    BridgeOwnership, BridgeOwnershipView, GatewayOwnership, GatewaySpec, HostNetworkConfig,
    HostNetworkConfigView, NetworkOwnershipManifest, NetworkOwnershipManifestView, TapEntry,
    TapEntryView, TapOwnership, TapOwnershipView, TapSpec, TapSpecView,
};
use crate::fabric::naming::{is_mac, is_name};
use crate::model::{copy_opt, same_opt, views, Model};
use crate::table::{cut_name, find_name, name_cut, name_get, name_put, put_name};
use crate::text::{lower, same, to_lower};
use vstd::prelude::*;

verus! {

// ---------------------------------------------------------------------------
// Validity
// ---------------------------------------------------------------------------

/// What is wrong with the record of the bridge, if anything.
pub open spec fn bridge_fault(
    config: HostNetworkConfigView,
    bridge: Option<BridgeOwnershipView>,
) -> Result<(), HostNetworkError> {
    match bridge {
        None => Ok(()),
        Some(b) => if b.name != config.bridge_name || b.uplink != config.uplink {
            Err(HostNetworkError::OwnershipConflict)
        } else if b.gateway matches Some(g) && g.prefix_len > 30 {
            Err(HostNetworkError::InvalidConfiguration)
        } else {
            Ok(())
        },
    }
}

/// What is wrong with the record of one tap device by itself, if anything.
pub open spec fn entry_fault(entry: TapEntryView) -> Result<(), HostNetworkError> {
    if !is_name(entry.key) || !is_name(entry.tap.interface) || !is_reference(
        entry.tap.instance_id,
    ) || !is_reference(entry.tap.port_id) {
        Err(HostNetworkError::InvalidName)
    } else if !is_mac(entry.tap.mac) {
        Err(HostNetworkError::InvalidMac)
    } else {
        Ok(())
    }
}

/// Whether one of the first `n` tap devices is that of a port.
pub open spec fn port_taken(taps: Seq<TapEntryView>, n: int, port_id: Seq<char>) -> bool {
    exists|k: int| 0 <= k < n && (#[trigger] taps[k]).tap.port_id == port_id
}

/// What is wrong with the records of the tap devices from the one at `i` on, if anything.
pub open spec fn taps_fault(
    config: HostNetworkConfigView,
    taps: Seq<TapEntryView>,
    i: int,
) -> Result<(), HostNetworkError>
    decreases taps.len() - i,
{
    if i < 0 || i >= taps.len() {
        Ok(())
    } else {
        match entry_fault(taps[i]) {
            Err(e) => Err(e),
            Ok(()) => if taps[i].key != taps[i].tap.interface || taps[i].tap.bridge
                != config.bridge_name || !taps[i].tap.created_by_o3k || port_taken(
                taps,
                i,
                taps[i].tap.port_id,
            ) {
                Err(HostNetworkError::OwnershipConflict)
            } else {
                taps_fault(config, taps, i + 1)
            },
        }
    }
}

/// What is wrong with a record, if anything.
pub open spec fn manifest_fault(
    config: HostNetworkConfigView,
    manifest: NetworkOwnershipManifestView,
) -> Result<(), HostNetworkError> {
    match bridge_fault(config, manifest.bridge) {
        Err(e) => Err(e),
        Ok(()) => taps_fault(config, manifest.taps, 0),
    }
}

fn validate_entry(entry: &TapEntry) -> (r: Result<(), HostNetworkError>)
    ensures
        r == entry_fault(entry@),
{
    match validate_ifname(entry.key.as_str()) {
        Err(e) => return Err(e),
        Ok(()) => {},
    }
    match validate_ifname(entry.tap.interface.as_str()) {
        Err(e) => return Err(e),
        Ok(()) => {},
    }
    match validate_reference(entry.tap.instance_id.as_str()) {
        Err(e) => return Err(e),
        Ok(()) => {},
    }
    match validate_reference(entry.tap.port_id.as_str()) {
        Err(e) => return Err(e),
        Ok(()) => {},
    }
    validate_mac(entry.tap.mac.as_str())
}

fn is_port_taken(taps: &Vec<TapEntry>, n: usize, port_id: &str) -> (r: bool)
    requires
        n <= taps.len(),
    ensures
        r == port_taken(views(taps@), n as int, port_id@),
{
    let ghost all = views(taps@);
    for k in 0..n
        invariant
            all == views(taps@),
            n <= taps.len(),
            forall|j: int| 0 <= j < k ==> (#[trigger] all[j]).tap.port_id != port_id@,
    {
        assert(all[k as int] == taps@[k as int]@);
        if same(taps[k].tap.port_id.as_str(), port_id) {
            return true;
        }
    }
    false
}

/// Computes [`manifest_fault`].
pub fn validate_manifest(config: &HostNetworkConfig, manifest: &NetworkOwnershipManifest) -> (r:
    Result<(), HostNetworkError>)
    ensures
        r == manifest_fault(config@, manifest@),
{
    match &manifest.bridge {
        None => {},
        Some(bridge) => {
            if !same(bridge.name.as_str(), config.bridge_name.as_str()) || !same_opt(
                &bridge.uplink,
                &config.uplink,
            ) {
                return Err(HostNetworkError::OwnershipConflict);
            }
            match &bridge.gateway {
                None => {},
                Some(g) => match validate_gateway(
                    GatewaySpec { address: g.address, prefix_len: g.prefix_len },
                ) {
                    Err(e) => return Err(e),
                    Ok(()) => {},
                },
            }
        },
    }
    let ghost all = manifest@.taps;
    for i in 0..manifest.taps.len()
        invariant
            all == views(manifest.taps@),
            bridge_fault(config@, manifest@.bridge) is Ok,
            all == manifest@.taps,
            taps_fault(config@, all, 0) == taps_fault(config@, all, i as int),
    {
        assert(all[i as int] == manifest.taps@[i as int]@);
        let entry = &manifest.taps[i];
        match validate_entry(entry) {
            Err(e) => return Err(e),
            Ok(()) => {},
        }
        if !same(entry.key.as_str(), entry.tap.interface.as_str()) || !same(
            entry.tap.bridge.as_str(),
            config.bridge_name.as_str(),
        ) || !entry.tap.created_by_o3k || is_port_taken(
            &manifest.taps,
            i,
            entry.tap.port_id.as_str(),
        ) {
            return Err(HostNetworkError::OwnershipConflict);
        }
    }
    Ok(())
}

// ---------------------------------------------------------------------------
// Changes
// ---------------------------------------------------------------------------

/// A record with the bridge that was made, or the reason not to write it: another bridge is
/// recorded. A recorded gateway stays.
pub open spec fn with_bridge(
    config: HostNetworkConfigView,
    m: NetworkOwnershipManifestView,
    identity: Seq<char>,
) -> Result<NetworkOwnershipManifestView, HostNetworkError> {
    if m.bridge matches Some(b) && (b.name != config.bridge_name || b.uplink != config.uplink) {
        Err(HostNetworkError::OwnershipConflict)
    } else {
        Ok(
            NetworkOwnershipManifestView {
                bridge: Some(
                    BridgeOwnershipView {
                        name: config.bridge_name,
                        uplink: config.uplink,
                        created_by_o3k: true,
                        identity: Some(identity),
                        gateway: match m.bridge {
                            Some(b) => b.gateway,
                            None => None,
                        },
                    },
                ),
                taps: m.taps,
            },
        )
    }
}

/// A record with a gateway, or the reason not to write it: the bridge is not the manager's.
pub open spec fn with_gateway(
    config: HostNetworkConfigView,
    m: NetworkOwnershipManifestView,
    gateway: GatewaySpec,
) -> Result<NetworkOwnershipManifestView, HostNetworkError> {
    match m.bridge {
        Some(b) => if b.name == config.bridge_name && b.created_by_o3k {
            Ok(
                NetworkOwnershipManifestView {
                    bridge: Some(
                        BridgeOwnershipView {
                            gateway: Some(
                                GatewayOwnership {
                                    address: gateway.address,
                                    prefix_len: gateway.prefix_len,
                                },
                            ),
                            ..b
                        },
                    ),
                    taps: m.taps,
                },
            )
        } else {
            Err(HostNetworkError::ForeignInterface)
        },
        None => Err(HostNetworkError::ForeignInterface),
    }
}

/// A record without a gateway.
pub open spec fn without_gateway(m: NetworkOwnershipManifestView) -> NetworkOwnershipManifestView {
    match m.bridge {
        Some(b) => NetworkOwnershipManifestView {
            bridge: Some(BridgeOwnershipView { gateway: None, ..b }),
            taps: m.taps,
        },
        None => m,
    }
}

/// A record without the bridge, or the reason not to write it: tap devices are recorded.
pub open spec fn without_bridge(m: NetworkOwnershipManifestView) -> Result<
    NetworkOwnershipManifestView,
    HostNetworkError,
> {
    if m.taps.len() == 0 {
        Ok(NetworkOwnershipManifestView { bridge: None, taps: m.taps })
    } else {
        Err(HostNetworkError::OwnershipConflict)
    }
}

/// The record that a tap device gets. Its hardware address is kept in lower case.
pub open spec fn tap_record(
    config: HostNetworkConfigView,
    interface: Seq<char>,
    spec: TapSpecView,
) -> TapOwnershipView {
    TapOwnershipView {
        interface,
        instance_id: spec.instance_id,
        port_id: spec.port_id,
        mac: lower(spec.mac),
        bridge: config.bridge_name,
        created_by_o3k: true,
    }
}

/// A record with a tap device, or the reason not to write it: another record is under its name.
pub open spec fn with_tap(
    config: HostNetworkConfigView,
    m: NetworkOwnershipManifestView,
    interface: Seq<char>,
    spec: TapSpecView,
) -> Result<NetworkOwnershipManifestView, HostNetworkError> {
    let entry = TapEntryView { key: interface, tap: tap_record(config, interface, spec) };
    match name_get::<TapEntry>(m.taps, interface) {
        Some(known) => if known.tap != entry.tap {
            Err(HostNetworkError::OwnershipConflict)
        } else {
            Ok(
                NetworkOwnershipManifestView {
                    bridge: m.bridge,
                    taps: name_put::<TapEntry>(m.taps, entry),
                },
            )
        },
        None => Ok(
            NetworkOwnershipManifestView {
                bridge: m.bridge,
                taps: name_put::<TapEntry>(m.taps, entry),
            },
        ),
    }
}

/// Whether a record is that of the tap device which a port of an instance asks for.
pub open spec fn is_record_of(tap: TapOwnershipView, spec: TapSpecView) -> bool {
    tap.instance_id == spec.instance_id && tap.port_id == spec.port_id && lower(tap.mac) == lower(
        spec.mac,
    )
}

/// A record without a tap device, or the reason not to write it: the record under the name is
/// that of another.
pub open spec fn without_tap(
    m: NetworkOwnershipManifestView,
    interface: Seq<char>,
    spec: TapSpecView,
) -> Result<NetworkOwnershipManifestView, HostNetworkError> {
    match name_get::<TapEntry>(m.taps, interface) {
        None => Ok(m),
        Some(known) => if is_record_of(known.tap, spec) {
            Ok(
                NetworkOwnershipManifestView {
                    bridge: m.bridge,
                    taps: name_cut::<TapEntry>(m.taps, interface),
                },
            )
        } else {
            Err(HostNetworkError::ForeignInterface)
        },
    }
}

/// What the record says of a live tap device, where a record is kept.
pub open spec fn recorded_fault(
    config: HostNetworkConfigView,
    m: NetworkOwnershipManifestView,
    interface: Seq<char>,
    spec: TapSpecView,
) -> Result<(), HostNetworkError> {
    match name_get::<TapEntry>(m.taps, interface) {
        None => Err(HostNetworkError::ForeignInterface),
        Some(known) => if is_record_of(known.tap, spec) && known.tap.bridge == config.bridge_name
            && known.tap.created_by_o3k {
            Ok(())
        } else {
            Err(HostNetworkError::ForeignInterface)
        },
    }
}

/// A change of the record by its view.
pub open spec fn changed(r: Result<NetworkOwnershipManifest, HostNetworkError>) -> Result<
    NetworkOwnershipManifestView,
    HostNetworkError,
> {
    match r {
        Ok(m) => Ok(m@),
        Err(e) => Err(e),
    }
}

fn same_record(tap: &TapOwnership, spec: &TapSpec) -> (r: bool)
    ensures
        r == is_record_of(tap@, spec@),
{
    same(tap.instance_id.as_str(), spec.instance_id.as_str()) && same(
        tap.port_id.as_str(),
        spec.port_id.as_str(),
    ) && same(to_lower(tap.mac.as_str()).as_str(), to_lower(spec.mac.as_str()).as_str())
}

impl NetworkOwnershipManifest {
    /// Computes [`with_bridge`].
    pub fn with_bridge(&self, config: &HostNetworkConfig, identity: &str) -> (r: Result<
        NetworkOwnershipManifest,
        HostNetworkError,
    >)
        ensures
            changed(r) == with_bridge(config@, self@, identity@),
    {
        let gateway: Option<GatewayOwnership> = match &self.bridge {
            None => None,
            Some(b) => {
                if !same(b.name.as_str(), config.bridge_name.as_str()) || !same_opt(
                    &b.uplink,
                    &config.uplink,
                ) {
                    return Err(HostNetworkError::OwnershipConflict);
                }
                b.gateway
            },
        };
        let mut m = self.copy();
        m.bridge = Some(
            BridgeOwnership {
                name: config.bridge_name.clone(),
                uplink: copy_opt(&config.uplink),
                created_by_o3k: true,
                identity: Some(identity.to_owned()),
                gateway,
            },
        );
        Ok(m)
    }

    /// Computes [`with_gateway`].
    pub fn with_gateway(&self, config: &HostNetworkConfig, gateway: GatewaySpec) -> (r: Result<
        NetworkOwnershipManifest,
        HostNetworkError,
    >)
        ensures
            changed(r) == with_gateway(config@, self@, gateway),
    {
        match &self.bridge {
            None => Err(HostNetworkError::ForeignInterface),
            Some(b) => {
                if !same(b.name.as_str(), config.bridge_name.as_str()) || !b.created_by_o3k {
                    return Err(HostNetworkError::ForeignInterface);
                }
                let mut bridge = b.copy();
                bridge.gateway = Some(
                    GatewayOwnership {
                        address: gateway.address,
                        prefix_len: gateway.prefix_len,
                    },
                );
                let mut m = self.copy();
                m.bridge = Some(bridge);
                Ok(m)
            },
        }
    }

    /// Computes [`without_gateway`].
    pub fn without_gateway(&self) -> (r: NetworkOwnershipManifest)
        ensures
            r@ == without_gateway(self@),
    {
        let mut m = self.copy();
        match &self.bridge {
            None => {},
            Some(b) => {
                let mut bridge = b.copy();
                bridge.gateway = None;
                m.bridge = Some(bridge);
            },
        }
        m
    }

    /// Computes [`without_bridge`].
    pub fn without_bridge(&self) -> (r: Result<NetworkOwnershipManifest, HostNetworkError>)
        ensures
            changed(r) == without_bridge(self@),
    {
        assert(self@.taps.len() == self.taps@.len());
        if self.taps.len() == 0 {
            let mut m = self.copy();
            m.bridge = None;
            Ok(m)
        } else {
            Err(HostNetworkError::OwnershipConflict)
        }
    }

    /// Computes [`with_tap`].
    pub fn with_tap(&self, config: &HostNetworkConfig, interface: &str, spec: &TapSpec) -> (r:
        Result<NetworkOwnershipManifest, HostNetworkError>)
        ensures
            changed(r) == with_tap(config@, self@, interface@, spec@),
    {
        let tap = TapOwnership {
            interface: interface.to_owned(),
            instance_id: spec.instance_id.clone(),
            port_id: spec.port_id.clone(),
            mac: to_lower(spec.mac.as_str()),
            bridge: config.bridge_name.clone(),
            created_by_o3k: true,
        };
        match find_name(&self.taps, interface) {
            None => {},
            Some(i) => {
                if !self.taps[i].tap.same_as(&tap) {
                    return Err(HostNetworkError::OwnershipConflict);
                }
            },
        }
        let mut m = self.copy();
        put_name(&mut m.taps, TapEntry { key: interface.to_owned(), tap });
        Ok(m)
    }

    /// Computes [`without_tap`].
    pub fn without_tap(&self, interface: &str, spec: &TapSpec) -> (r: Result<
        NetworkOwnershipManifest,
        HostNetworkError,
    >)
        ensures
            changed(r) == without_tap(self@, interface@, spec@),
    {
        match find_name(&self.taps, interface) {
            None => Ok(self.copy()),
            Some(i) => {
                if !same_record(&self.taps[i].tap, spec) {
                    return Err(HostNetworkError::ForeignInterface);
                }
                let mut m = self.copy();
                cut_name(&mut m.taps, interface);
                Ok(m)
            },
        }
    }

    /// Computes [`recorded_fault`].
    pub fn recorded_fault(&self, config: &HostNetworkConfig, interface: &str, spec: &TapSpec) -> (r:
        Result<(), HostNetworkError>)
        ensures
            r == recorded_fault(config@, self@, interface@, spec@),
    {
        match find_name(&self.taps, interface) {
            None => Err(HostNetworkError::ForeignInterface),
            Some(i) => {
                let tap = &self.taps[i].tap;
                if same_record(tap, spec) && same(
                    tap.bridge.as_str(),
                    config.bridge_name.as_str(),
                ) && tap.created_by_o3k {
                    Ok(())
                } else {
                    Err(HostNetworkError::ForeignInterface)
                }
            },
        }
    }
}

} // verus!
