//! Identifiers of the sections an event can hold.

use vstd::prelude::*;
use crate::text::str_eq;

verus! {

/// Why a section identifier could not be built.
#[derive(Clone, Copy, Debug, PartialEq, Eq, Structural)]
pub enum SectionIdError {
    /// The numeric identifier is not one of the known owners.
    UnknownId(u8),
    /// The textual name is not one of the known section names.
    UnknownName,
}

/// List of unique event sections owners.
#[derive(Clone, Copy, Debug, PartialEq, Eq, Hash, Structural)]
pub enum SectionId {
    Common,
    Kernel,
    Userspace,
    Tracking,
    SkbTracking,
    SkbDrop,
    Skb,
    Ovs,
    Nft,
    Ct,
    Startup,
}

/// Smallest numeric identifier in use on the wire.
pub const SECTION_ID_MIN: u8 = 1;

/// Largest numeric identifier in use on the wire.
pub const SECTION_ID_MAX: u8 = 11;

/// The section whose wire identifier is `val`, if there is one.
pub open spec fn section_of_u8(val: u8) -> Option<SectionId> {
    if val == 1 {
        Some(SectionId::Common)
    } else if val == 2 {
        Some(SectionId::Kernel)
    } else if val == 3 {
        Some(SectionId::Userspace)
    } else if val == 4 {
        Some(SectionId::Tracking)
    } else if val == 5 {
        Some(SectionId::SkbTracking)
    } else if val == 6 {
        Some(SectionId::SkbDrop)
    } else if val == 7 {
        Some(SectionId::Skb)
    } else if val == 8 {
        Some(SectionId::Ovs)
    } else if val == 9 {
        Some(SectionId::Nft)
    } else if val == 10 {
        Some(SectionId::Ct)
    } else if val == 11 {
        Some(SectionId::Startup)
    } else {
        None
    }
}

/// The first section, in the order of the numeric identifiers from `from`
/// on, whose textual name is `name`.
pub open spec fn first_named(name: Seq<char>, from: u8) -> Option<SectionId>
    decreases 256 - from,
{
    match section_of_u8(from) {
        None => None,
        Some(id) => if id.name() == name {
            Some(id)
        } else {
            first_named(name, (from + 1) as u8)
        },
    }
}

/// The section whose textual name is `name`, if there is one.
pub open spec fn section_of_name(name: Seq<char>) -> Option<SectionId> {
    first_named(name, 1)
}

impl SectionId {
    /// The stable numeric identifier used on the wire.
    pub open spec fn wire_id(self) -> u8 {
        match self {
            SectionId::Common => 1,
            SectionId::Kernel => 2,
            SectionId::Userspace => 3,
            SectionId::Tracking => 4,
            SectionId::SkbTracking => 5,
            SectionId::SkbDrop => 6,
            SectionId::Skb => 7,
            SectionId::Ovs => 8,
            SectionId::Nft => 9,
            SectionId::Ct => 10,
            SectionId::Startup => 11,
        }
    }

    /// The textual name used in the file format.
    pub open spec fn name(self) -> Seq<char> {
        match self {
            SectionId::Common => "common"@,
            SectionId::Kernel => "kernel"@,
            SectionId::Userspace => "userspace"@,
            SectionId::Tracking => "tracking"@,
            SectionId::SkbTracking => "skb-tracking"@,
            SectionId::SkbDrop => "skb-drop"@,
            SectionId::Skb => "skb"@,
            SectionId::Ovs => "ovs"@,
            SectionId::Nft => "nft"@,
            SectionId::Ct => "ct"@,
            SectionId::Startup => "startup"@,
        }
    }

    /// The section that follows this one in the order of the numeric
    /// identifiers, if there is one.
    pub open spec fn spec_next(self) -> Option<SectionId> {
        section_of_u8((self.wire_id() + 1) as u8)
    }

    /// The section that follows this one in the order of the numeric
    /// identifiers, if there is one.
    pub fn next(self) -> (r: Option<SectionId>)
        ensures
            r == self.spec_next(),
            r matches Some(n) ==> n.wire_id() == self.wire_id() + 1,
            r is None ==> self.wire_id() == SECTION_ID_MAX,
    {
        match self {
            SectionId::Common => Some(SectionId::Kernel),
            SectionId::Kernel => Some(SectionId::Userspace),
            SectionId::Userspace => Some(SectionId::Tracking),
            SectionId::Tracking => Some(SectionId::SkbTracking),
            SectionId::SkbTracking => Some(SectionId::SkbDrop),
            SectionId::SkbDrop => Some(SectionId::Skb),
            SectionId::Skb => Some(SectionId::Ovs),
            SectionId::Ovs => Some(SectionId::Nft),
            SectionId::Nft => Some(SectionId::Ct),
            SectionId::Ct => Some(SectionId::Startup),
            SectionId::Startup => None,
        }
    }

    /// Constructs a SectionId from a section unique str identifier.
    pub fn from_str(val: &str) -> (r: Result<SectionId, SectionIdError>)
        ensures
            r == match section_of_name(val@) {
                Some(id) => Ok::<SectionId, SectionIdError>(id),
                None => Err(SectionIdError::UnknownName),
            },
    {
        let mut cur: Option<SectionId> = Some(SectionId::Common);
        while cur.is_some()
            invariant
                section_of_name(val@) == match cur {
                    Some(c) => first_named(val@, c.wire_id()),
                    None => None,
                },
            decreases
                    match cur {
                        Some(c) => 12 - c.wire_id(),
                        None => 0,
                    },
        {
            let id = cur.unwrap();
            assert(section_of_u8(id.wire_id()) == Some(id));
            if str_eq(id.to_str(), val) {
                return Ok(id);
            }
            assert(first_named(val@, id.wire_id()) == first_named(val@, (id.wire_id() + 1) as u8));
            assert(first_named(val@, 12) is None);
            cur = id.next();
        }
        Err(SectionIdError::UnknownName)
    }

    /// Constructs a SectionId from a section unique identifier.
    pub fn from_u8(val: u8) -> (r: Result<SectionId, SectionIdError>)
        ensures
            r == match section_of_u8(val) {
                Some(id) => Ok::<SectionId, SectionIdError>(id),
                None => Err(SectionIdError::UnknownId(val)),
            },
    {
        match val {
            1 => Ok(SectionId::Common),
            2 => Ok(SectionId::Kernel),
            3 => Ok(SectionId::Userspace),
            4 => Ok(SectionId::Tracking),
            5 => Ok(SectionId::SkbTracking),
            6 => Ok(SectionId::SkbDrop),
            7 => Ok(SectionId::Skb),
            8 => Ok(SectionId::Ovs),
            9 => Ok(SectionId::Nft),
            10 => Ok(SectionId::Ct),
            11 => Ok(SectionId::Startup),
            x => Err(SectionIdError::UnknownId(x)),
        }
    }

    /// Converts a SectionId to its unique numeric identifier.
    pub fn to_u8(self) -> (r: u8)
        ensures
            r == self.wire_id(),
            SECTION_ID_MIN <= r <= SECTION_ID_MAX,
    {
        match self {
            SectionId::Common => 1,
            SectionId::Kernel => 2,
            SectionId::Userspace => 3,
            SectionId::Tracking => 4,
            SectionId::SkbTracking => 5,
            SectionId::SkbDrop => 6,
            SectionId::Skb => 7,
            SectionId::Ovs => 8,
            SectionId::Nft => 9,
            SectionId::Ct => 10,
            SectionId::Startup => 11,
        }
    }

    /// Converts a SectionId to a section unique str identifier.
    pub fn to_str(self) -> (r: &'static str)
        ensures
            r@ == self.name(),
    {
        match self {
            SectionId::Common => "common",
            SectionId::Kernel => "kernel",
            SectionId::Userspace => "userspace",
            SectionId::Tracking => "tracking",
            SectionId::SkbTracking => "skb-tracking",
            SectionId::SkbDrop => "skb-drop",
            SectionId::Skb => "skb",
            SectionId::Ovs => "ovs",
            SectionId::Nft => "nft",
            SectionId::Ct => "ct",
            SectionId::Startup => "startup",
        }
    }
}

/// Every section's wire identifier maps back to that section, and every
/// accepted wire identifier is the identifier of the section it maps to.
pub proof fn lemma_wire_id_round_trip(id: SectionId, val: u8)
    ensures
        section_of_u8(id.wire_id()) == Some(id),
        section_of_u8(val) matches Some(s) ==> s.wire_id() == val,
{
}

} // verus!
