//! Shell identity: `ShellId` and `ShellKind`.

use vstd::prelude::*;
use crate::text::{decimal, decimal_string};

verus! {

/// Unique identifier for a shell.
#[derive(Debug, Clone, PartialEq, Eq, Hash)]
pub struct ShellId(pub String);

impl View for ShellId {
    type V = Seq<char>;

    open spec fn view(&self) -> Seq<char> {
        self.0@
    }
}

/// The identifier that `ShellId::generate` builds from a clock reading.
pub open spec fn generated_shell_id(nanos: nat) -> Seq<char> {
    "shell-"@ + decimal(nanos)
}

/// Nanoseconds since the Unix epoch by the system clock, 0 when the clock
/// reads earlier than the epoch. Makes one reading of the clock,
/// `std::time::SystemTime::now`; `duration_since(UNIX_EPOCH)`,
/// `unwrap_or_default` and `as_nanos` only turn that reading into a number,
/// the error of a reading before the epoch into 0. The reading depends on
/// the time of the call, so nothing is stated of it.
#[verifier::external_body]
fn clock_nanos() -> u128 {
    std::time::SystemTime::now().duration_since(std::time::UNIX_EPOCH).unwrap_or_default().as_nanos()
}

impl ShellId {
    pub fn new(id: &str) -> (r: Self)
        ensures
            r@ == id@,
    {
        ShellId(id.to_owned())
    }

    /// The identifier `shell-<nanos>` for a clock reading of `nanos`.
    pub fn from_clock(nanos: u128) -> (r: Self)
        ensures
            r@ == generated_shell_id(nanos as nat),
    {
        proof {
            reveal_strlit("shell-");
        }
        let digits = decimal_string(nanos);
        let s = String::from_str("shell-").concat(digits.as_str());
        ShellId(s)
    }

    /// An identifier from the current time: `shell-` followed by the
    /// nanoseconds since the Unix epoch.
    pub fn generate() -> (r: Self)
        ensures
            exists|n: nat| r@ == generated_shell_id(n),
    {
        let nanos = clock_nanos();
        Self::from_clock(nanos)
    }

    pub fn as_str(&self) -> (r: &str)
        ensures
            r@ == self@,
    {
        self.0.as_str()
    }

    /// The identifier as text.
    pub fn to_string(&self) -> (r: String)
        ensures
            r@ == self@,
    {
        self.0.clone()
    }

    /// A copy of this identifier.
    pub fn duplicate(&self) -> (r: Self)
        ensures
            r == *self,
    {
        ShellId(self.0.clone())
    }
}

/// What kind of shell this is.
#[derive(Debug, Clone, PartialEq, Eq, Hash)]
pub enum ShellKind {
    Hermes,
    ZeroClaw,
    CUDAClaw,
    Ensign,
    Custom(String),
}

impl ShellKind {
    /// The label of a kind: its variant's name, or the custom name.
    pub open spec fn spec_label(&self) -> Seq<char> {
        match self {
            ShellKind::Hermes => "Hermes"@,
            ShellKind::ZeroClaw => "ZeroClaw"@,
            ShellKind::CUDAClaw => "CUDAClaw"@,
            ShellKind::Ensign => "Ensign"@,
            ShellKind::Custom(s) => s@,
        }
    }

    /// Sandboxed kinds are the compute workers.
    pub open spec fn spec_sandboxed(&self) -> bool {
        self is ZeroClaw || self is CUDAClaw
    }

    pub fn is_hermes(&self) -> (b: bool)
        ensures
            b == (self is Hermes),
    {
        matches!(self, ShellKind::Hermes)
    }

    pub fn is_sandboxed(&self) -> (b: bool)
        ensures
            b == self.spec_sandboxed(),
    {
        matches!(self, ShellKind::ZeroClaw | ShellKind::CUDAClaw)
    }

    pub fn label(&self) -> (s: String)
        ensures
            s@ == self.spec_label(),
    {
        match self {
            ShellKind::Hermes => String::from_str("Hermes"),
            ShellKind::ZeroClaw => String::from_str("ZeroClaw"),
            ShellKind::CUDAClaw => String::from_str("CUDAClaw"),
            ShellKind::Ensign => String::from_str("Ensign"),
            ShellKind::Custom(s) => s.clone(),
        }
    }

    /// The kind as text: its label.
    pub fn to_string(&self) -> (s: String)
        ensures
            s@ == self.spec_label(),
    {
        self.label()
    }

    /// A copy of this kind.
    pub fn duplicate(&self) -> (r: Self)
        ensures
            r == *self,
    {
        match self {
            ShellKind::Hermes => ShellKind::Hermes,
            ShellKind::ZeroClaw => ShellKind::ZeroClaw,
            ShellKind::CUDAClaw => ShellKind::CUDAClaw,
            ShellKind::Ensign => ShellKind::Ensign,
            ShellKind::Custom(s) => ShellKind::Custom(s.clone()),
        }
    }
}

} // verus!
