//! Priorities and facilities, and the value in which a record carries both.

use vstd::prelude::*;

verus! {

/// The priority (i.e. severity) of a syslog message.
///
/// See syslog man pages for information on their semantics.
#[derive(Copy, Clone, Debug, PartialEq, Eq, Structural)]
pub enum Priority {
    Emergency,
    Alert,
    Critical,
    Error,
    Warning,
    Notice,
    Info,
    Debug,
}

impl Priority {
    /// The rank of the priority: `0` is the most severe.
    pub open spec fn number(self) -> nat {
        match self {
            Priority::Emergency => 0,
            Priority::Alert => 1,
            Priority::Critical => 2,
            Priority::Error => 3,
            Priority::Warning => 4,
            Priority::Notice => 5,
            Priority::Info => 6,
            Priority::Debug => 7,
        }
    }

    /// The name under which the priority appears in log lines.
    pub open spec fn name(self) -> Seq<char> {
        match self {
            Priority::Emergency => "EMERGENCY"@,
            Priority::Alert => "ALERT"@,
            Priority::Critical => "CRITICAL"@,
            Priority::Error => "ERROR"@,
            Priority::Warning => "WARNING"@,
            Priority::Notice => "NOTICE"@,
            Priority::Info => "INFO"@,
            Priority::Debug => "DEBUG"@,
        }
    }

    /// The number that stands for the priority in a record.
    pub fn code(self) -> (code: u8)
        ensures
            code as nat == self.number(),
    {
        match self {
            Priority::Emergency => 0,
            Priority::Alert => 1,
            Priority::Critical => 2,
            Priority::Error => 3,
            Priority::Warning => 4,
            Priority::Notice => 5,
            Priority::Info => 6,
            Priority::Debug => 7,
        }
    }

    /// The name of the priority in capitals.
    pub fn as_str(self) -> (name: &'static str)
        ensures
            name@ == self.name(),
    {
        match self {
            Priority::Emergency => "EMERGENCY",
            Priority::Alert => "ALERT",
            Priority::Critical => "CRITICAL",
            Priority::Error => "ERROR",
            Priority::Warning => "WARNING",
            Priority::Notice => "NOTICE",
            Priority::Info => "INFO",
            Priority::Debug => "DEBUG",
        }
    }

    /// The name of the priority in capitals, as an owned string.
    pub fn to_string(&self) -> (name: String)
        ensures
            name@ == self.name(),
    {
        self.as_str().to_owned()
    }
}

/// The facility of a syslog message.
///
/// See syslog man pages for information on their semantics.
///
/// The value that stands for a facility in a record is its `code`; a cast would only count the
/// variants.
#[derive(Copy, Clone, Debug, PartialEq, Eq, Structural)]
pub enum Facility {
    Kernel,
    User,
    Mail,
    Daemon,
    Auth,
    Syslog,
    Lpr,
    News,
    Uucp,
    Local0,
    Local1,
    Local2,
    Local3,
    Local4,
    Local5,
    Local6,
    Local7,
}

impl Facility {
    /// The number of the facility. The eight local facilities start at `16`.
    pub open spec fn number(self) -> nat {
        match self {
            Facility::Kernel => 0,
            Facility::User => 1,
            Facility::Mail => 2,
            Facility::Daemon => 3,
            Facility::Auth => 4,
            Facility::Syslog => 5,
            Facility::Lpr => 6,
            Facility::News => 7,
            Facility::Uucp => 8,
            Facility::Local0 => 16,
            Facility::Local1 => 17,
            Facility::Local2 => 18,
            Facility::Local3 => 19,
            Facility::Local4 => 20,
            Facility::Local5 => 21,
            Facility::Local6 => 22,
            Facility::Local7 => 23,
        }
    }

    /// The facility's number, moved past the three bits that hold the priority.
    pub fn code(self) -> (code: u8)
        ensures
            code as nat == 8 * self.number(),
    {
        match self {
            Facility::Kernel => 0,
            Facility::User => 8,
            Facility::Mail => 16,
            Facility::Daemon => 24,
            Facility::Auth => 32,
            Facility::Syslog => 40,
            Facility::Lpr => 48,
            Facility::News => 56,
            Facility::Uucp => 64,
            Facility::Local0 => 128,
            Facility::Local1 => 136,
            Facility::Local2 => 144,
            Facility::Local3 => 152,
            Facility::Local4 => 160,
            Facility::Local5 => 168,
            Facility::Local6 => 176,
            Facility::Local7 => 184,
        }
    }
}

/// The value that opens a record: the facility above the three bits of the priority.
pub open spec fn prifac_number(pri: Priority, fac: Facility) -> nat {
    8 * fac.number() + pri.number()
}

/// Joins a priority and a facility in the value that opens a record.
pub fn prifac(pri: Priority, fac: Facility) -> (value: u8)
    ensures
        value as nat == prifac_number(pri, fac),
{
    let p: u8 = pri.code();
    let f: u8 = fac.code();
    assert(p | f == p + f) by (bit_vector)
        requires
            p < 8,
            f % 8 == 0,
    ;
    p | f
}

/// The opening value of a record determines both its priority and its facility: they are the
/// remainder and the quotient by eight, and no two pairs share a value.
pub proof fn law_prifac_identifies_both(
    pri: Priority,
    fac: Facility,
    other_pri: Priority,
    other_fac: Facility,
)
    ensures
        prifac_number(pri, fac) % 8 == pri.number(),
        prifac_number(pri, fac) / 8 == fac.number(),
        prifac_number(pri, fac) <= u8::MAX,
        prifac_number(pri, fac) == prifac_number(other_pri, other_fac) <==> pri == other_pri
            && fac == other_fac,
{
}

} // verus!
