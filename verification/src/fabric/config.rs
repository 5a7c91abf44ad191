//! The settings of the fabric and the ways in which it fails.
use super::naming::{is_name, valid_name};
use crate::path::{is_root_directory, root_directory};
use crate::render::{number_text, parse_number};
use crate::text::{chars_of, rows, text_of, words, words_of};
use vstd::prelude::*;

verus! {

/// Where the fabric keeps its records and how its own objects are named.
#[derive(Clone, Debug, PartialEq, Eq)]
pub struct LinuxFabricConfig {
    pub root: String,
    pub fabric_namespace: String,
    pub fabric_interface: String,
    pub wireguard_port: u16,
    pub geneve_port: u16,
    pub public_uplink: Option<String>,
}

/// The view of [`LinuxFabricConfig`].
#[verifier::ext_equal]
pub struct LinuxFabricConfigView {
    pub root: Seq<char>,
    pub fabric_namespace: Seq<char>,
    pub fabric_interface: Seq<char>,
    pub wireguard_port: u16,
    pub geneve_port: u16,
    pub public_uplink: Option<Seq<char>>,
}

impl View for LinuxFabricConfig {
    type V = LinuxFabricConfigView;

    open spec fn view(&self) -> LinuxFabricConfigView {
        LinuxFabricConfigView {
            root: self.root@,
            fabric_namespace: self.fabric_namespace@,
            fabric_interface: self.fabric_interface@,
            wireguard_port: self.wireguard_port,
            geneve_port: self.geneve_port,
            public_uplink: crate::model::view_opt(self.public_uplink),
        }
    }
}

impl LinuxFabricConfigView {
    /// Whether the fabric can work with the settings.
    pub open spec fn valid(self) -> bool {
        &&& !is_root_directory(self.root)
        &&& self.root.len() > 0
        &&& is_name(self.fabric_namespace)
        &&& is_name(self.fabric_interface)
        &&& self.wireguard_port != 0
        &&& self.geneve_port != 0
        &&& self.public_uplink matches Some(uplink) ==> is_name(uplink)
    }
}

/// A way in which the fabric fails.
#[derive(Clone, Copy, Debug, PartialEq, Eq, Structural)]
pub enum LinuxFabricError {
    InvalidConfiguration,
    CorruptState,
    ForeignState,
    OwnershipConflict,
    CommandFailed,
    Storage,
}

/// The message of a failure.
pub open spec fn fabric_message(e: LinuxFabricError) -> Seq<char> {
    match e {
        LinuxFabricError::InvalidConfiguration => "Linux fabric configuration is invalid"@,
        LinuxFabricError::CorruptState => "Linux fabric provider state is corrupt"@,
        LinuxFabricError::ForeignState => "Linux fabric provider state is foreign or ambiguous"@,
        LinuxFabricError::OwnershipConflict => "Linux fabric provider state conflicts with the requested plan"@,
        LinuxFabricError::CommandFailed => "Linux fabric provider command failed"@,
        LinuxFabricError::Storage => "Linux fabric provider state storage failed"@,
    }
}

impl LinuxFabricError {
    /// Computes [`fabric_message`].
    pub fn message(&self) -> (r: &'static str)
        ensures
            r@ == fabric_message(*self),
    {
        match self {
            LinuxFabricError::InvalidConfiguration => "Linux fabric configuration is invalid",
            LinuxFabricError::CorruptState => "Linux fabric provider state is corrupt",
            LinuxFabricError::ForeignState => "Linux fabric provider state is foreign or ambiguous",
            LinuxFabricError::OwnershipConflict => "Linux fabric provider state conflicts with the requested plan",
            LinuxFabricError::CommandFailed => "Linux fabric provider command failed",
            LinuxFabricError::Storage => "Linux fabric provider state storage failed",
        }
    }
}

/// A failure of applying or removing a plan.
#[derive(Clone, Copy, Debug, PartialEq, Eq, Structural)]
pub enum FabricError {
    /// The plan is older than what is realized.
    StaleGeneration,
    /// The fabric itself failed.
    Backend(LinuxFabricError),
}

impl LinuxFabricConfig {
    /// The usual settings with records under `root`.
    pub fn for_root(root: &str) -> (r: Self)
        ensures
            r@ == (LinuxFabricConfigView {
                root: root@,
                fabric_namespace: "o3k-fabric"@,
                fabric_interface: "wg-o3k"@,
                wireguard_port: 65_001,
                geneve_port: 6_081,
                public_uplink: None,
            }),
    {
        LinuxFabricConfig {
            root: root.to_owned(),
            fabric_namespace: "o3k-fabric".to_owned(),
            fabric_interface: "wg-o3k".to_owned(),
            wireguard_port: 65_001,
            geneve_port: 6_081,
            public_uplink: None,
        }
    }

    /// The settings with public addresses on the given link.
    pub fn with_public_uplink(self, uplink: &str) -> (r: Self)
        ensures
            r@ == (LinuxFabricConfigView { public_uplink: Some(uplink@), ..self@ }),
    {
        LinuxFabricConfig { public_uplink: Some(uplink.to_owned()), ..self }
    }

    /// The settings with another WireGuard port.
    pub fn with_wireguard_port(self, port: u16) -> (r: Self)
        ensures
            r@ == (LinuxFabricConfigView { wireguard_port: port, ..self@ }),
    {
        LinuxFabricConfig { wireguard_port: port, ..self }
    }

    /// The settings with another tunnel port.
    pub fn with_geneve_port(self, port: u16) -> (r: Self)
        ensures
            r@ == (LinuxFabricConfigView { geneve_port: port, ..self@ }),
    {
        LinuxFabricConfig { geneve_port: port, ..self }
    }

    /// Rejects settings that the fabric cannot work with.
    pub fn validate(&self) -> (r: Result<(), LinuxFabricError>)
        ensures
            r == (if self@.valid() {
                Ok(())
            } else {
                Err(LinuxFabricError::InvalidConfiguration)
            }),
    {
        let uplink_ok = match &self.public_uplink {
            Some(uplink) => valid_name(uplink.as_str()),
            None => true,
        };
        if root_directory(self.root.as_str()) || self.root.as_str().is_empty() || !valid_name(
            self.fabric_namespace.as_str(),
        ) || !valid_name(self.fabric_interface.as_str()) || self.wireguard_port == 0
            || self.geneve_port == 0 || !uplink_ok {
            return Err(LinuxFabricError::InvalidConfiguration);
        }
        Ok(())
    }

    /// Rejects a port that is zero, and a tunnel port that another socket has bound.
    pub fn validate_ports(&self, bound: bool) -> (r: Result<(), LinuxFabricError>)
        ensures
            r == (if self@.wireguard_port == 0 || self@.geneve_port == 0 || bound {
                Err(LinuxFabricError::InvalidConfiguration)
            } else {
                Ok(())
            }),
    {
        if self.wireguard_port < 1 || self.geneve_port < 1 {
            return Err(LinuxFabricError::InvalidConfiguration);
        }
        if bound {
            return Err(LinuxFabricError::InvalidConfiguration);
        }
        Ok(())
    }

    /// Tells whether the tunnel port lies in the range from which the kernel picks ports by
    /// itself, where the lower bound of the range is known.
    pub fn port_is_ephemeral(&self, low: Option<u16>) -> (r: bool)
        ensures
            r == (low matches Some(l) && self@.wireguard_port >= l),
    {
        match low {
            Some(low) => self.wireguard_port >= low,
            None => false,
        }
    }
}

/// The lower bound in the kernel's description of its port range: the first word, where it is a
/// port number.
pub open spec fn port_range_low(content: Seq<char>) -> Option<nat> {
    let w = words(content);
    if w.len() == 0 {
        None
    } else {
        number_text(w[0], 0x1_0000)
    }
}

/// Computes [`port_range_low`].
pub fn ephemeral_port_low(content: &str) -> (r: Option<u16>)
    ensures
        match r {
            Some(low) => port_range_low(content@) == Some(low as nat),
            None => port_range_low(content@) is None,
        },
{
    let chars = chars_of(content);
    let mut w = words_of(&chars);
    assert(rows(w@).len() == w@.len());
    if w.len() == 0 {
        return None;
    }
    assert(rows(w@)[0] == w@[0]@);
    let first = text_of(w.swap_remove(0));
    match parse_number(first.as_str(), 0x1_0000) {
        Some(n) => Some(n as u16),
        None => None,
    }
}

} // verus!
