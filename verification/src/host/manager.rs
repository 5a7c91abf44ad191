//! The manager of the host network: what it holds and what it reads and writes of its record.
use super::config::{
    digest_mac, digest_mac_of, tap_name_text, validate_ifname, validate_reference, is_reference,
    HostNetworkError,
};
use super::links::{identity, interface_identity};
use super::manifest::{changed, manifest_fault, recorded_fault, validate_manifest};
use super::types::{
    BridgeOwnershipView, GatewaySpec, HostNetworkConfig, HostNetworkConfigView,
    NetworkOwnershipManifest, NetworkOwnershipManifestView, TapAccess, TapAccessView, TapEntryView,
    TapSpec, TapSpecView,
};
use crate::digest::sha256_of;
use crate::fabric::naming::{is_mac, is_name, lemma_hex_chars};
use crate::model::{view_opt, views};
use crate::render::hex_of;
use crate::session::{demanded, Effect, EffectView, Session, Stop, Trace};
use crate::table::{name_put, put_name};
use crate::text::{is_blank, join, same, trim};
use vstd::prelude::*;

verus! {

/// How an operation of the manager ends.
pub type HostOutcome<T> = Result<T, Stop<HostNetworkError>>;

/// How long the hardware address of a new tap device has to stay as requested, in milliseconds.
/// What replaces it does so within tens of milliseconds of the device's creation.
pub const TAP_ADDRESS_SETTLE_WINDOW_MS: u64 = 200;

/// How long the manager waits between two looks at the hardware address, in milliseconds.
pub const TAP_ADDRESS_POLL_INTERVAL_MS: u64 = 100;

/// How long the manager tries to fix the hardware address, in milliseconds.
pub const TAP_ADDRESS_STABILIZE_TIMEOUT_MS: u64 = 5_000;

/// The manager of the host network. Without a record it owns nothing durably: it makes links,
/// and recognizes its own by what the host says of them.
#[derive(Clone, Debug, PartialEq, Eq)]
pub struct HostNetworkManager {
    pub config: HostNetworkConfig,
    pub ownership: Option<NetworkOwnershipManifest>,
    /// Whether a new bridge gets a hardware address of its own.
    pub set_stable_bridge_mac: bool,
    pub tap_access: Option<TapAccess>,
    /// How long the hardware address of a new tap device has to stay as requested.
    pub settle_window_ms: u64,
}

/// The view of [`HostNetworkManager`].
#[verifier::ext_equal]
pub struct HostView {
    pub config: HostNetworkConfigView,
    pub ownership: Option<NetworkOwnershipManifestView>,
    pub set_stable_bridge_mac: bool,
    pub tap_access: Option<TapAccessView>,
    pub settle_window_ms: u64,
}

impl View for HostNetworkManager {
    type V = HostView;

    open spec fn view(&self) -> HostView {
        HostView {
            config: self.config@,
            ownership: view_opt(self.ownership),
            set_stable_bridge_mac: self.set_stable_bridge_mac,
            tap_access: view_opt(self.tap_access),
            settle_window_ms: self.settle_window_ms,
        }
    }
}

/// The record of the bridge in what is recorded, if anything is.
pub open spec fn bridge_in(ownership: Option<NetworkOwnershipManifestView>) -> Option<
    BridgeOwnershipView,
> {
    match ownership {
        Some(m) => m.bridge,
        None => None,
    }
}

impl HostView {
    /// The manager with another record.
    pub open spec fn with(self, m: NetworkOwnershipManifestView) -> HostView {
        HostView { ownership: Some(m), ..self }
    }

    /// The record of the bridge.
    pub open spec fn bridge(self) -> Option<BridgeOwnershipView> {
        bridge_in(self.ownership)
    }

    /// The recorded gateway.
    pub open spec fn gateway(self) -> Option<GatewaySpec> {
        match self.bridge() {
            Some(b) => match b.gateway {
                Some(g) => Some(GatewaySpec { address: g.address, prefix_len: g.prefix_len }),
                None => None,
            },
            None => None,
        }
    }

    /// The recorded tap devices.
    pub open spec fn taps(self) -> Seq<TapEntryView> {
        match self.ownership {
            Some(m) => m.taps,
            None => Seq::empty(),
        }
    }

    /// Whether the description of a link is that of the bridge which the manager made.
    pub open spec fn owns_bridge(self, output: Seq<char>) -> bool {
        match identity(output) {
            None => false,
            Some(id) => self.bridge() matches Some(b) && b.name == self.config.bridge_name
                && b.created_by_o3k && b.identity == Some(id),
        }
    }

    /// What the record says of a live tap device. Where no record is kept, it says nothing
    /// against it.
    pub open spec fn recorded(self, interface: Seq<char>, spec: TapSpecView) -> Result<
        (),
        HostNetworkError,
    > {
        match self.ownership {
            None => Ok(()),
            Some(m) => recorded_fault(self.config, m, interface, spec),
        }
    }
}

// ---------------------------------------------------------------------------
// Changing the record
// ---------------------------------------------------------------------------

/// Makes a changed record durable. Where that fails, the manager keeps the record it had. A
/// manager without a record has nothing to do.
pub open spec fn update_run(
    h: HostView,
    change: Option<Result<NetworkOwnershipManifestView, HostNetworkError>>,
    t: Trace,
) -> (HostView, Trace, HostOutcome<()>) {
    match change {
        None => (h, t, Ok(())),
        Some(Err(e)) => (h, t, Err(Stop::Failed(e))),
        Some(Ok(m)) => {
            let t1 = t.after(EffectView::Save);
            let saved = demanded(
                t.reply(),
                HostNetworkError::OwnershipStorage,
                HostNetworkError::OwnershipStorage,
            );
            match saved {
                Err(Stop::Failed(_)) => (h, t1, saved),
                _ => (h.with(m), t1, saved),
            }
        },
    }
}

impl HostNetworkManager {
    /// Performs [`update_run`].
    pub(crate) fn update_ownership(
        &mut self,
        change: Option<Result<NetworkOwnershipManifest, HostNetworkError>>,
        session: &mut Session,
    ) -> (r: HostOutcome<()>)
        ensures
            (final(self)@, final(session)@, r) == update_run(
                old(self)@,
                match change {
                    Some(c) => Some(changed(c)),
                    None => None,
                },
                old(session)@,
            ),
    {
        match change {
            None => Ok(()),
            Some(Err(e)) => Err(Stop::Failed(e)),
            Some(Ok(m)) => {
                let saved: HostOutcome<()> = session.demand(
                    Effect::Save,
                    HostNetworkError::OwnershipStorage,
                    HostNetworkError::OwnershipStorage,
                );
                match saved {
                    Err(Stop::Failed(e)) => Err(Stop::Failed(e)),
                    other => {
                        self.ownership = Some(m);
                        other
                    },
                }
            },
        }
    }

    // -----------------------------------------------------------------------
    // Making a manager
    // -----------------------------------------------------------------------
    /// A manager without a record.
    pub fn new(config: HostNetworkConfig) -> (r: Result<Self, HostNetworkError>)
        ensures
            match r {
                Ok(m) => config@.valid() && m@ == (HostView {
                    config: config@,
                    ownership: None,
                    set_stable_bridge_mac: true,
                    tap_access: None,
                    settle_window_ms: TAP_ADDRESS_SETTLE_WINDOW_MS,
                }),
                Err(e) => !config@.valid() && e == HostNetworkError::InvalidName,
            },
    {
        match config.validate() {
            Err(e) => Err(e),
            Ok(()) => Ok(
                HostNetworkManager {
                    config,
                    ownership: None,
                    set_stable_bridge_mac: true,
                    tap_access: None,
                    settle_window_ms: TAP_ADDRESS_SETTLE_WINDOW_MS,
                },
            ),
        }
    }

    /// A manager with the durable record that was found. The record is required before a gateway
    /// or a bridge is changed or removed, and it binds each tap device to its instance and port.
    pub fn with_ownership_root(config: HostNetworkConfig, manifest: NetworkOwnershipManifest) -> (r:
        Result<Self, HostNetworkError>)
        ensures
            match r {
                Ok(m) => config@.valid() && manifest_fault(config@, manifest@) is Ok && m@ == (
                HostView {
                    config: config@,
                    ownership: Some(manifest@),
                    set_stable_bridge_mac: true,
                    tap_access: None,
                    settle_window_ms: TAP_ADDRESS_SETTLE_WINDOW_MS,
                }),
                Err(e) => if config@.valid() {
                    manifest_fault(config@, manifest@) == Err::<(), HostNetworkError>(e)
                } else {
                    e == HostNetworkError::InvalidName
                },
            },
    {
        match config.validate() {
            Err(e) => return Err(e),
            Ok(()) => {},
        }
        match validate_manifest(&config, &manifest) {
            Err(e) => return Err(e),
            Ok(()) => {},
        }
        Ok(
            HostNetworkManager {
                config,
                ownership: Some(manifest),
                set_stable_bridge_mac: true,
                tap_access: None,
                settle_window_ms: TAP_ADDRESS_SETTLE_WINDOW_MS,
            },
        )
    }

    /// The manager with another word on who may open the tap devices that it makes.
    pub fn with_tap_access(self, access: Option<TapAccess>) -> (r: Result<Self, HostNetworkError>)
        ensures
            match r {
                Ok(m) => m@ == (HostView { tap_access: view_opt(access), ..self@ }),
                Err(e) => e == HostNetworkError::InvalidConfiguration,
            },
            r is Err == (access matches Some(a) && (trim(a.user@).len() == 0 || trim(
                a.group@,
            ).len() == 0)),
    {
        match &access {
            Some(a) => {
                if is_blank(a.user.as_str()) || is_blank(a.group.as_str()) {
                    return Err(HostNetworkError::InvalidConfiguration);
                }
            },
            None => {},
        }
        let mut m = self;
        m.tap_access = access;
        Ok(m)
    }

    // -----------------------------------------------------------------------
    // Derived names
    // -----------------------------------------------------------------------
    /// The name of the tap device of a port.
    pub fn tap_name(port_id: &str) -> (r: Result<String, HostNetworkError>)
        ensures
            match r {
                Ok(name) => trim(port_id@).len() > 0 && name@ == tap_name_text(port_id@)
                    && is_name(name@),
                Err(e) => trim(port_id@).len() == 0 && e == HostNetworkError::InvalidName,
            },
    {
        if is_blank(port_id) {
            return Err(HostNetworkError::InvalidName);
        }
        let digest = sha256_of(port_id.as_bytes());
        let mut first: Vec<u8> = Vec::new();
        for i in 0..4usize
            invariant
                digest@.len() == 32,
                first@ == digest@.take(i as int),
        {
            first.push(digest[i]);
            assert(first@ =~= digest@.take(i + 1));
        }
        let digits = hex_of(first.as_slice());
        proof {
            reveal_strlit("o3ktap-");
            lemma_hex_chars(first@);
        }
        Ok(join("o3ktap-", digits.as_str()))
    }

    /// The hardware address of a port.
    pub fn deterministic_mac(port_id: &str) -> (r: Result<String, HostNetworkError>)
        ensures
            match r {
                Ok(mac) => trim(port_id@).len() > 0 && mac@ == digest_mac(port_id@) && is_mac(mac@),
                Err(e) => trim(port_id@).len() == 0 && e == HostNetworkError::InvalidName,
            },
    {
        if is_blank(port_id) {
            return Err(HostNetworkError::InvalidName);
        }
        Ok(digest_mac_of(port_id))
    }

    /// The hardware address of a managed bridge. The host would otherwise pick another one when
    /// the first tap device is attached; with this one the identity in the record stays good.
    pub fn deterministic_bridge_mac(bridge_name: &str) -> (r: Result<String, HostNetworkError>)
        ensures
            match r {
                Ok(mac) => is_name(bridge_name@) && mac@ == digest_mac(bridge_name@) && is_mac(
                    mac@,
                ),
                Err(e) => !is_name(bridge_name@) && e == HostNetworkError::InvalidName,
            },
    {
        match validate_ifname(bridge_name) {
            Err(e) => Err(e),
            Ok(()) => Ok(digest_mac_of(bridge_name)),
        }
    }

    // -----------------------------------------------------------------------
    // Reading the record
    // -----------------------------------------------------------------------
    /// The configured bridge.
    pub fn bridge_name(&self) -> (r: Option<String>)
        ensures
            r matches Some(name) && name@ == self@.config.bridge_name,
    {
        Some(self.config.bridge_name.clone())
    }

    /// Whether a bridge is recorded.
    pub(crate) fn has_bridge(&self) -> (r: bool)
        ensures
            r == (self@.bridge() is Some),
    {
        match &self.ownership {
            None => false,
            Some(m) => m.bridge.is_some(),
        }
    }

    /// The recorded gateway.
    pub fn recorded_gateway(&self) -> (r: Option<GatewaySpec>)
        ensures
            r == self@.gateway(),
    {
        match &self.ownership {
            None => None,
            Some(m) => match &m.bridge {
                None => None,
                Some(b) => match &b.gateway {
                    None => None,
                    Some(g) => Some(GatewaySpec { address: g.address, prefix_len: g.prefix_len }),
                },
            },
        }
    }

    /// Whether no tap device is recorded.
    pub fn recorded_taps_empty(&self) -> (r: bool)
        ensures
            r == (self@.taps().len() == 0),
    {
        match &self.ownership {
            None => true,
            Some(m) => {
                assert(m@.taps.len() == m.taps@.len());
                m.taps.len() == 0
            },
        }
    }

    /// Whether the description of a link is that of the bridge which the manager made.
    pub fn bridge_is_owned_output(&self, output: &str) -> (r: bool)
        ensures
            r == self@.owns_bridge(output@),
    {
        match interface_identity(output) {
            None => false,
            Some(id) => match &self.ownership {
                None => false,
                Some(m) => match &m.bridge {
                    None => false,
                    Some(b) => same(b.name.as_str(), self.config.bridge_name.as_str())
                        && b.created_by_o3k && match &b.identity {
                        None => false,
                        Some(known) => same(known.as_str(), id.as_str()),
                    },
                },
            },
        }
    }

    /// What the record says of a live tap device.
    pub fn validate_recorded_tap(&self, interface: &str, spec: &TapSpec) -> (r: Result<
        (),
        HostNetworkError,
    >)
        ensures
            r == self@.recorded(interface@, spec@),
    {
        match &self.ownership {
            None => Ok(()),
            Some(m) => m.recorded_fault(&self.config, interface, spec),
        }
    }

    /// Takes over the record that another process made durable.
    pub fn refresh_ownership(&mut self, manifest: NetworkOwnershipManifest) -> (r: Result<
        (),
        HostNetworkError,
    >)
        ensures
            (final(self)@, r) == refreshed(old(self)@, manifest@),
    {
        if self.ownership.is_none() {
            return Ok(());
        }
        match validate_manifest(&self.config, &manifest) {
            Err(e) => return Err(e),
            Ok(()) => {},
        }
        self.ownership = Some(manifest);
        Ok(())
    }
}

/// The manager after it took over a record. A manager without a record stays without one, and
/// one that finds a record with a fault keeps its own.
pub open spec fn refreshed(h: HostView, found: NetworkOwnershipManifestView) -> (
    HostView,
    Result<(), HostNetworkError>,
) {
    if h.ownership is None {
        (h, Ok(()))
    } else {
        match manifest_fault(h.config, found) {
            Err(e) => (h, Err(e)),
            Ok(()) => (h.with(found), Ok(())),
        }
    }
}

// ---------------------------------------------------------------------------
// What instances own
// ---------------------------------------------------------------------------

/// The request that a recorded tap device answers.
pub open spec fn spec_of(entry: TapEntryView) -> TapSpecView {
    TapSpecView {
        instance_id: entry.tap.instance_id,
        port_id: entry.tap.port_id,
        mac: entry.tap.mac,
    }
}

/// The recorded ports of an instance.
pub open spec fn ports_of(taps: Seq<TapEntryView>, instance_id: Seq<char>) -> Seq<Seq<char>> {
    taps.filter(|e: TapEntryView| e.tap.instance_id == instance_id).map_values(
        |e: TapEntryView| e.tap.port_id,
    )
}

/// The recorded tap devices of an instance that the manager made.
pub open spec fn specs_of(taps: Seq<TapEntryView>, instance_id: Seq<char>) -> Seq<TapSpecView> {
    taps.filter(
        |e: TapEntryView| e.tap.created_by_o3k && e.tap.instance_id == instance_id,
    ).map_values(|e: TapEntryView| spec_of(e))
}

/// The instances of the recorded tap devices that the manager made, each once and in order,
/// added to those in `known`, from the device at `i` on.
pub open spec fn instances_of(
    known: Seq<Seq<char>>,
    taps: Seq<TapEntryView>,
    i: int,
) -> Seq<Seq<char>>
    decreases taps.len() - i,
{
    if i < 0 || i >= taps.len() {
        known
    } else if taps[i].tap.created_by_o3k {
        instances_of(name_put::<String>(known, taps[i].tap.instance_id), taps, i + 1)
    } else {
        instances_of(known, taps, i + 1)
    }
}

proof fn lemma_filter_step<A, B>(s: Seq<A>, i: int, p: spec_fn(A) -> bool, f: spec_fn(A) -> B)
    requires
        0 <= i < s.len(),
    ensures
        s.take(i + 1).filter(p).map_values(f) == (if p(s[i]) {
            s.take(i).filter(p).map_values(f).push(f(s[i]))
        } else {
            s.take(i).filter(p).map_values(f)
        }),
{
    reveal(Seq::filter);
    assert(s.take(i + 1).drop_last() =~= s.take(i));
    assert(s.take(i + 1).last() == s[i]);
    if p(s[i]) {
        assert(s.take(i + 1).filter(p) == s.take(i).filter(p).push(s[i]));
        assert(s.take(i + 1).filter(p).map_values(f) =~= s.take(i).filter(p).map_values(f).push(
            f(s[i]),
        ));
    }
}

impl HostNetworkManager {
    /// The recorded ports of an instance. What else belongs to a port is found by these when the
    /// records of the tap devices are gone.
    pub fn owned_port_ids_for_instance(&self, instance_id: &str) -> (r: Result<
        Vec<String>,
        HostNetworkError,
    >)
        ensures
            match r {
                Ok(v) => is_reference(instance_id@) && views(v@) == ports_of(
                    self@.taps(),
                    instance_id@,
                ),
                Err(e) => !is_reference(instance_id@) && e == HostNetworkError::InvalidName,
            },
    {
        match validate_reference(instance_id) {
            Err(e) => return Err(e),
            Ok(()) => {},
        }
        let mut out: Vec<String> = Vec::new();
        let ghost p = |e: TapEntryView| e.tap.instance_id == instance_id@;
        let ghost f = |e: TapEntryView| e.tap.port_id;
        proof {
            reveal(Seq::filter);
            assert(views(out@) =~= Seq::<TapEntryView>::empty().filter(p).map_values(f));
        }
        match &self.ownership {
            None => {},
            Some(m) => {
                let ghost all = m@.taps;
                assert(all.take(0) =~= Seq::<TapEntryView>::empty());
                for i in 0..m.taps.len()
                    invariant
                        all == views(m.taps@),
                        p == (|e: TapEntryView| e.tap.instance_id == instance_id@),
                        f == (|e: TapEntryView| e.tap.port_id),
                        views(out@) == all.take(i as int).filter(p).map_values(f),
                {
                    let ghost so_far = views(out@);
                    proof {
                        assert(all[i as int] == m.taps@[i as int]@);
                        lemma_filter_step(all, i as int, p, f);
                    }
                    if same(m.taps[i].tap.instance_id.as_str(), instance_id) {
                        out.push(m.taps[i].tap.port_id.clone());
                        assert(views(out@) =~= so_far.push(f(all[i as int])));
                    }
                }
                assert(all.take(all.len() as int) =~= all);
            },
        }
        Ok(out)
    }

    pub(crate) fn owned_specs(&self, instance_id: &str) -> (r: Vec<TapSpec>)
        ensures
            views(r@) == specs_of(self@.taps(), instance_id@),
    {
        let mut out: Vec<TapSpec> = Vec::new();
        let ghost p = |e: TapEntryView| e.tap.created_by_o3k && e.tap.instance_id == instance_id@;
        let ghost f = |e: TapEntryView| spec_of(e);
        proof {
            reveal(Seq::filter);
            assert(views(out@) =~= Seq::<TapEntryView>::empty().filter(p).map_values(f));
        }
        match &self.ownership {
            None => {},
            Some(m) => {
                let ghost all = m@.taps;
                assert(all.take(0) =~= Seq::<TapEntryView>::empty());
                for i in 0..m.taps.len()
                    invariant
                        all == views(m.taps@),
                        p == (|e: TapEntryView|
                            e.tap.created_by_o3k && e.tap.instance_id == instance_id@),
                        f == (|e: TapEntryView| spec_of(e)),
                        views(out@) == all.take(i as int).filter(p).map_values(f),
                {
                    let ghost so_far = views(out@);
                    proof {
                        assert(all[i as int] == m.taps@[i as int]@);
                        lemma_filter_step(all, i as int, p, f);
                    }
                    let tap = &m.taps[i].tap;
                    if tap.created_by_o3k && same(tap.instance_id.as_str(), instance_id) {
                        out.push(
                            TapSpec {
                                instance_id: tap.instance_id.clone(),
                                port_id: tap.port_id.clone(),
                                mac: tap.mac.clone(),
                            },
                        );
                        assert(views(out@) =~= so_far.push(f(all[i as int])));
                    }
                }
                assert(all.take(all.len() as int) =~= all);
            },
        }
        out
    }

    /// The recorded tap devices of an instance that the manager made. They are made again from
    /// this when the host lost them.
    pub fn owned_tap_specs_for_instance(&self, instance_id: &str) -> (r: Result<
        Vec<TapSpec>,
        HostNetworkError,
    >)
        ensures
            match r {
                Ok(v) => is_reference(instance_id@) && views(v@) == specs_of(
                    self@.taps(),
                    instance_id@,
                ),
                Err(e) => !is_reference(instance_id@) && e == HostNetworkError::InvalidName,
            },
    {
        match validate_reference(instance_id) {
            Err(e) => Err(e),
            Ok(()) => Ok(self.owned_specs(instance_id)),
        }
    }

    /// The instances that recorded tap devices belong to, each once and in order.
    pub fn owned_instance_ids(&self) -> (r: Vec<String>)
        ensures
            views(r@) == instances_of(Seq::empty(), self@.taps(), 0),
    {
        let mut ids: Vec<String> = Vec::new();
        assert(views(ids@) =~= Seq::<Seq<char>>::empty());
        match &self.ownership {
            None => {},
            Some(m) => {
                let ghost all = m@.taps;
                for i in 0..m.taps.len()
                    invariant
                        all == views(m.taps@),
                        instances_of(Seq::empty(), all, 0) == instances_of(
                            views(ids@),
                            all,
                            i as int,
                        ),
                {
                    assert(all[i as int] == m.taps@[i as int]@);
                    if m.taps[i].tap.created_by_o3k {
                        put_name(&mut ids, m.taps[i].tap.instance_id.clone());
                    }
                }
            },
        }
        ids
    }
}

} // verus!
