//! The ways in which the host network fails, and what is checked before anything is done.
use super::types::{GatewaySpec, HostNetworkConfig, HostNetworkConfigView, TapSpec, TapSpecView};
use crate::digest::{sha256, sha256_of};
use crate::fabric::naming::{is_mac, is_name, local_mac, local_mac_of, valid_mac, valid_name};
use crate::identity::{fresh_id, simple_of, simple_text};
use crate::render::hex;
use crate::text::{char_is_control, char_is_space, chars_of, is_control, is_space, text_of};
use vstd::prelude::*;
use vstd::utf8::encode_utf8;

verus! {

/// A way in which the host network fails.
#[derive(Clone, Copy, Debug, PartialEq, Eq, Structural)]
pub enum HostNetworkError {
    InvalidConfiguration,
    CommandFailed,
    InvalidName,
    InvalidMac,
    ForeignInterface,
    RollbackFailed,
    CorruptOwnership,
    OwnershipStorage,
    OwnershipConflict,
}

/// The message of a failure.
pub open spec fn host_message(e: HostNetworkError) -> Seq<char> {
    match e {
        HostNetworkError::InvalidConfiguration => "host network configuration is invalid"@,
        HostNetworkError::CommandFailed => "host network operation failed"@,
        HostNetworkError::InvalidName => "host network interface name is invalid"@,
        HostNetworkError::InvalidMac => "host network MAC address is invalid"@,
        HostNetworkError::ForeignInterface => "existing TAP interface is not owned by the requested O3K network"@,
        HostNetworkError::RollbackFailed => "host network rollback failed after an operation error"@,
        HostNetworkError::CorruptOwnership => "host network ownership metadata is corrupt"@,
        HostNetworkError::OwnershipStorage => "host network ownership metadata could not be persisted"@,
        HostNetworkError::OwnershipConflict => "host network ownership metadata conflicts with the requested resource"@,
    }
}

impl HostNetworkError {
    /// Computes [`host_message`].
    pub fn message(&self) -> (r: &'static str)
        ensures
            r@ == host_message(*self),
    {
        match self {
            HostNetworkError::InvalidConfiguration => "host network configuration is invalid",
            HostNetworkError::CommandFailed => "host network operation failed",
            HostNetworkError::InvalidName => "host network interface name is invalid",
            HostNetworkError::InvalidMac => "host network MAC address is invalid",
            HostNetworkError::ForeignInterface => "existing TAP interface is not owned by the requested O3K network",
            HostNetworkError::RollbackFailed => "host network rollback failed after an operation error",
            HostNetworkError::CorruptOwnership => "host network ownership metadata is corrupt",
            HostNetworkError::OwnershipStorage => "host network ownership metadata could not be persisted",
            HostNetworkError::OwnershipConflict => "host network ownership metadata conflicts with the requested resource",
        }
    }
}

// ---------------------------------------------------------------------------
// Names, references and addresses
// ---------------------------------------------------------------------------

/// Accepts the name of an interface.
pub fn validate_ifname(name: &str) -> (r: Result<(), HostNetworkError>)
    ensures
        r == (if is_name(name@) {
            Ok::<(), HostNetworkError>(())
        } else {
            Err(HostNetworkError::InvalidName)
        }),
{
    if valid_name(name) {
        Ok(())
    } else {
        Err(HostNetworkError::InvalidName)
    }
}

/// Whether a character can stand in a reference.
pub open spec fn is_reference_char(c: char) -> bool {
    !is_space(c) && !is_control(c) && c != '/' && c != '\\'
}

/// Whether a text can refer to an instance or a port: it has between 1 and 128 bytes, with no
/// blank, control character or slash.
pub open spec fn is_reference(s: Seq<char>) -> bool {
    &&& s.len() > 0
    &&& encode_utf8(s).len() <= 128
    &&& forall|i: int| 0 <= i < s.len() ==> is_reference_char(#[trigger] s[i])
}

/// Accepts a text that is [`is_reference`].
pub fn validate_reference(value: &str) -> (r: Result<(), HostNetworkError>)
    ensures
        r == (if is_reference(value@) {
            Ok::<(), HostNetworkError>(())
        } else {
            Err(HostNetworkError::InvalidName)
        }),
{
    if value.is_empty() || value.as_bytes().len() > 128 {
        return Err(HostNetworkError::InvalidName);
    }
    let chars = chars_of(value);
    for i in 0..chars.len()
        invariant
            chars@ == value@,
            forall|k: int| 0 <= k < i ==> is_reference_char(#[trigger] value@[k]),
    {
        let c: char = chars[i];
        if char_is_space(c) || char_is_control(c) || c == '/' || c == '\\' {
            assert(!is_reference_char(value@[i as int]));
            return Err(HostNetworkError::InvalidName);
        }
    }
    Ok(())
}

/// Accepts a hardware address.
pub fn validate_mac(mac: &str) -> (r: Result<(), HostNetworkError>)
    ensures
        r == (if is_mac(mac@) {
            Ok::<(), HostNetworkError>(())
        } else {
            Err(HostNetworkError::InvalidMac)
        }),
{
    if valid_mac(mac) {
        Ok(())
    } else {
        Err(HostNetworkError::InvalidMac)
    }
}

/// Accepts a gateway whose network has room for another address.
pub fn validate_gateway(gateway: GatewaySpec) -> (r: Result<(), HostNetworkError>)
    ensures
        r == (if gateway.prefix_len <= 30 {
            Ok::<(), HostNetworkError>(())
        } else {
            Err(HostNetworkError::InvalidConfiguration)
        }),
{
    if gateway.prefix_len > 30 {
        return Err(HostNetworkError::InvalidConfiguration);
    }
    Ok(())
}

/// What is wrong with the request for a tap device, if anything.
pub open spec fn spec_fault(spec: TapSpecView) -> Result<(), HostNetworkError> {
    if !is_reference(spec.instance_id) || !is_reference(spec.port_id) {
        Err(HostNetworkError::InvalidName)
    } else if !is_mac(spec.mac) {
        Err(HostNetworkError::InvalidMac)
    } else {
        Ok(())
    }
}

/// Computes [`spec_fault`].
pub fn validate_spec(spec: &TapSpec) -> (r: Result<(), HostNetworkError>)
    ensures
        r == spec_fault(spec@),
{
    match validate_reference(spec.instance_id.as_str()) {
        Err(e) => return Err(e),
        Ok(()) => {},
    }
    match validate_reference(spec.port_id.as_str()) {
        Err(e) => return Err(e),
        Ok(()) => {},
    }
    validate_mac(spec.mac.as_str())
}

impl HostNetworkConfigView {
    /// Whether the bridge and the uplink have names that links can have.
    pub open spec fn valid(self) -> bool {
        is_name(self.bridge_name) && (self.uplink matches Some(uplink) ==> is_name(uplink))
    }
}

impl HostNetworkConfig {
    /// Accepts settings whose names are names that links can have.
    pub fn validate(&self) -> (r: Result<(), HostNetworkError>)
        ensures
            r == (if self@.valid() {
                Ok::<(), HostNetworkError>(())
            } else {
                Err(HostNetworkError::InvalidName)
            }),
    {
        match validate_ifname(self.bridge_name.as_str()) {
            Err(e) => return Err(e),
            Ok(()) => {},
        }
        match &self.uplink {
            Some(uplink) => validate_ifname(uplink.as_str()),
            None => Ok(()),
        }
    }
}

// ---------------------------------------------------------------------------
// Names and addresses that are derived
// ---------------------------------------------------------------------------

/// The name of the tap device of a port: a digest of the port's reference, so that the same port
/// has the same device.
pub open spec fn tap_name_text(port_id: Seq<char>) -> Seq<char> {
    "o3ktap-"@ + hex(sha256(encode_utf8(port_id)).take(4))
}

/// The locally administered hardware address that belongs to a text.
pub open spec fn digest_mac(s: Seq<char>) -> Seq<char> {
    let d = sha256(encode_utf8(s));
    local_mac(d[0], d[1], d[2], d[3], d[4])
}

pub(crate) fn digest_mac_of(s: &str) -> (r: String)
    ensures
        r@ == digest_mac(s@),
        is_mac(r@),
{
    let d = sha256_of(s.as_bytes());
    proof {
        crate::fabric::naming::lemma_local_mac_valid(d[0], d[1], d[2], d[3], d[4]);
    }
    local_mac_of(d[0], d[1], d[2], d[3], d[4])
}

/// The last eight hexadecimal digits of an identifier.
pub open spec fn suffix(id: u128) -> Seq<char> {
    simple_text(id).skip(24)
}

fn suffix_of(id: u128) -> (r: String)
    ensures
        r@ == suffix(id),
{
    let all = chars_of(simple_of(id).as_str());
    proof {
        crate::render::lemma_hex_len(crate::identity::id_bytes(id));
    }
    let mut out: Vec<char> = Vec::new();
    for i in 24..all.len()
        invariant
            all@.len() == 32,
            out@ == all@.subrange(24, i as int),
    {
        out.push(all[i]);
        assert(out@ =~= all@.subrange(24, i + 1));
    }
    assert(out@ =~= all@.skip(24));
    text_of(out)
}

/// The names under which a bridge and a tap device are made. They are used until the record of
/// the link is durable: a link that bears one of them when the manager starts is what an
/// interrupted creation left, and no record ever refers to it.
#[derive(Clone, Debug, PartialEq, Eq)]
pub struct ProvisionalNames {
    pub bridge: String,
    pub tap: String,
}

/// The view of [`ProvisionalNames`].
#[verifier::ext_equal]
pub struct ProvisionalNamesView {
    pub bridge: Seq<char>,
    pub tap: Seq<char>,
}

impl View for ProvisionalNames {
    type V = ProvisionalNamesView;

    open spec fn view(&self) -> ProvisionalNamesView {
        ProvisionalNamesView { bridge: self.bridge@, tap: self.tap@ }
    }
}

impl ProvisionalNamesView {
    /// The names that two identifiers give.
    pub open spec fn of(bridge: u128, tap: u128) -> ProvisionalNamesView {
        ProvisionalNamesView {
            bridge: "o3kbm-"@ + suffix(bridge),
            tap: "o3ktmp-"@ + suffix(tap),
        }
    }
}

impl ProvisionalNames {
    /// The names that two identifiers give.
    pub fn of(bridge: u128, tap: u128) -> (r: ProvisionalNames)
        ensures
            r@ == ProvisionalNamesView::of(bridge, tap),
    {
        let b = suffix_of(bridge);
        let t = suffix_of(tap);
        ProvisionalNames {
            bridge: crate::text::join("o3kbm-", b.as_str()),
            tap: crate::text::join("o3ktmp-", t.as_str()),
        }
    }

    /// Names that no other link is expected to bear.
    pub fn fresh() -> (r: ProvisionalNames)
        ensures
            exists|bridge: u128, tap: u128| r@ == #[trigger] ProvisionalNamesView::of(bridge, tap),
    {
        let bridge: u128 = fresh_id();
        let tap: u128 = fresh_id();
        ProvisionalNames::of(bridge, tap)
    }
}

proof fn lemma_suffix(id: u128)
    ensures
        suffix(id).len() == 8,
        crate::fabric::naming::name_chars(suffix(id)),
{
    crate::render::lemma_hex_len(crate::identity::id_bytes(id));
    crate::fabric::naming::lemma_hex_chars(crate::identity::id_bytes(id));
    assert forall|i: int| 0 <= i < suffix(id).len() implies crate::fabric::naming::is_name_char(
        #[trigger] suffix(id)[i],
    ) by {
        assert(suffix(id)[i] == simple_text(id)[24 + i]);
    }
}

/// The provisional names are names that links can have.
pub proof fn lemma_provisional_names_valid(bridge: u128, tap: u128)
    ensures
        is_name(ProvisionalNamesView::of(bridge, tap).bridge),
        is_name(ProvisionalNamesView::of(bridge, tap).tap),
{
    reveal_strlit("o3kbm-");
    reveal_strlit("o3ktmp-");
    lemma_suffix(bridge);
    lemma_suffix(tap);
}

/// A provisional name is never the name of a port's tap device.
pub proof fn lemma_provisional_names_are_apart(bridge: u128, tap: u128, port_id: Seq<char>)
    ensures
        ProvisionalNamesView::of(bridge, tap).bridge != tap_name_text(port_id),
        ProvisionalNamesView::of(bridge, tap).tap != tap_name_text(port_id),
{
    reveal_strlit("o3kbm-");
    reveal_strlit("o3ktmp-");
    reveal_strlit("o3ktap-");
    assert(ProvisionalNamesView::of(bridge, tap).bridge[3] == 'b');
    assert(ProvisionalNamesView::of(bridge, tap).tap[4] == 'm');
    assert(tap_name_text(port_id)[3] == 't');
    assert(tap_name_text(port_id)[4] == 'a');
}

} // verus!
