//! Communication ports of a shell.

use vstd::prelude::*;
use crate::text::{strings_view, contains_str, push_if_absent, remove_all_str};

verus! {

#[derive(Debug, Clone, PartialEq, Eq, Structural)]
pub enum PortDirection {
    Inbound,
    Outbound,
    Bidirectional,
}

#[derive(Debug, Clone, PartialEq, Eq)]
pub enum PortProtocol {
    Telegram,
    Web,
    WebSocket,
    Http,
    Mqtt,
    Serial,
    Gpio,
    Custom(String),
}

impl PortProtocol {
    /// The protocol as text: its variant's name, or `Custom(<name>)`.
    pub open spec fn spec_text(&self) -> Seq<char> {
        match self {
            PortProtocol::Telegram => "Telegram"@,
            PortProtocol::Web => "Web"@,
            PortProtocol::WebSocket => "WebSocket"@,
            PortProtocol::Http => "Http"@,
            PortProtocol::Mqtt => "Mqtt"@,
            PortProtocol::Serial => "Serial"@,
            PortProtocol::Gpio => "Gpio"@,
            PortProtocol::Custom(s) => "Custom("@ + s@ + ")"@,
        }
    }

    /// The protocol as text.
    pub fn to_string(&self) -> (s: String)
        ensures
            s@ == self.spec_text(),
    {
        match self {
            PortProtocol::Telegram => String::from_str("Telegram"),
            PortProtocol::Web => String::from_str("Web"),
            PortProtocol::WebSocket => String::from_str("WebSocket"),
            PortProtocol::Http => String::from_str("Http"),
            PortProtocol::Mqtt => String::from_str("Mqtt"),
            PortProtocol::Serial => String::from_str("Serial"),
            PortProtocol::Gpio => String::from_str("Gpio"),
            PortProtocol::Custom(s) => String::from_str("Custom(").concat(s.as_str()).concat(")"),
        }
    }
}

/// Deadband monitoring of a port; bounds and reading in milli-units.
#[derive(Debug, Clone, Copy, PartialEq, Eq, Structural)]
pub struct PortDeadband {
    pub lower: i64,
    pub upper: i64,
    pub current: i64,
    pub check_interval_ms: u64,
}

impl PortDeadband {
    /// A deadband whose reading starts at its lower bound.
    pub fn new(lower: i64, upper: i64, check_interval_ms: u64) -> (d: Self)
        ensures
            d == (PortDeadband { lower, upper, current: lower, check_interval_ms }),
    {
        PortDeadband { lower, upper, current: lower, check_interval_ms }
    }

    pub open spec fn spec_in_band(&self) -> bool {
        self.lower <= self.current <= self.upper
    }

    /// Whether the reading lies within the bounds, both included.
    pub fn is_in_band(&self) -> (b: bool)
        ensures
            b == self.spec_in_band(),
            b <==> (self.lower <= self.current && self.current <= self.upper),
    {
        self.current >= self.lower && self.current <= self.upper
    }
}

#[derive(Debug, Clone)]
pub struct Port {
    pub id: String,
    pub direction: PortDirection,
    pub protocol: PortProtocol,
    pub target: String,
    pub permissions: Vec<String>,
    pub enabled: bool,
    pub deadband: Option<PortDeadband>,
}

/// The short name of a direction in a port's description.
pub open spec fn direction_text(d: PortDirection) -> Seq<char> {
    match d {
        PortDirection::Inbound => "in"@,
        PortDirection::Outbound => "out"@,
        PortDirection::Bidirectional => "in/out"@,
    }
}

impl Port {
    /// The granted permissions as character sequences.
    pub open spec fn perms(&self) -> Seq<Seq<char>> {
        strings_view(self.permissions@)
    }

    /// The one-line description of a port.
    pub open spec fn spec_describe(&self) -> Seq<char> {
        "Port "@ + self.id@ + " ["@ + direction_text(self.direction) + "] "@ + self.protocol.spec_text()
            + " → "@ + self.target@ + " ("@ + (if self.enabled {
            "active"@
        } else {
            "disabled"@
        }) + ")"@
    }

    /// A new port: enabled, with no target, no permissions and no deadband.
    pub fn new(id: &str, protocol: PortProtocol, direction: PortDirection) -> (p: Self)
        ensures
            p.id@ == id@,
            p.protocol == protocol,
            p.direction == direction,
            p.target@ == Seq::<char>::empty(),
            p.permissions@.len() == 0,
            p.enabled,
            p.deadband is None,
    {
        Port {
            id: id.to_owned(),
            direction,
            protocol,
            target: String::new(),
            permissions: Vec::new(),
            enabled: true,
            deadband: None,
        }
    }

    pub fn enable(&mut self)
        ensures
            *final(self) == (Port { enabled: true, ..*old(self) }),
    {
        self.enabled = true;
    }

    pub fn disable(&mut self)
        ensures
            *final(self) == (Port { enabled: false, ..*old(self) }),
    {
        self.enabled = false;
    }

    /// Grants `perm`; granting a permission already held changes nothing.
    pub fn grant_permission(&mut self, perm: &str)
        ensures
            final(self).perms() == (if old(self).perms().contains(perm@) {
                old(self).perms()
            } else {
                old(self).perms().push(perm@)
            }),
            final(self).id == old(self).id,
            final(self).direction == old(self).direction,
            final(self).protocol == old(self).protocol,
            final(self).target == old(self).target,
            final(self).enabled == old(self).enabled,
            final(self).deadband == old(self).deadband,
    {
        push_if_absent(&mut self.permissions, perm);
    }

    /// Revokes every grant of `perm`, keeping the others in order.
    pub fn revoke_permission(&mut self, perm: &str)
        ensures
            final(self).perms() == old(self).perms().filter(|q: Seq<char>| q != perm@),
            final(self).id == old(self).id,
            final(self).direction == old(self).direction,
            final(self).protocol == old(self).protocol,
            final(self).target == old(self).target,
            final(self).enabled == old(self).enabled,
            final(self).deadband == old(self).deadband,
    {
        remove_all_str(&mut self.permissions, perm);
    }

    pub fn has_permission(&self, perm: &str) -> (b: bool)
        ensures
            b == self.perms().contains(perm@),
    {
        contains_str(&self.permissions, perm)
    }

    pub fn is_active(&self) -> (b: bool)
        ensures
            b == self.enabled,
    {
        self.enabled
    }

    /// `Port <id> [<direction>] <protocol> → <target> (<state>)`.
    pub fn describe(&self) -> (s: String)
        ensures
            s@ == self.spec_describe(),
    {
        let dir = match &self.direction {
            PortDirection::Inbound => "in",
            PortDirection::Outbound => "out",
            PortDirection::Bidirectional => "in/out",
        };
        let state = if self.enabled {
            "active"
        } else {
            "disabled"
        };
        let proto = self.protocol.to_string();
        String::from_str("Port ").concat(self.id.as_str()).concat(" [").concat(dir).concat(
            "] ",
        ).concat(proto.as_str()).concat(" → ").concat(self.target.as_str()).concat(" (").concat(
            state,
        ).concat(")")
    }
}

} // verus!
