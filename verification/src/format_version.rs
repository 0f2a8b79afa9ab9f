//! Versions of the table format.

use std::cmp::Ordering;
use vstd::prelude::*;
use vstd::std_specs::cmp::PartialOrdSpecImpl;

verus! {

/// Iceberg format version
#[derive(Debug, PartialEq, Eq, Ord, Clone, Copy, Hash, Structural)]
pub enum FormatVersion {
    /// The first version
    V1,
    /// The second version, which has sequence numbers
    V2,
}

impl FormatVersion {
    /// The number of the version.
    pub open spec fn spec_number(self) -> u8 {
        match self {
            FormatVersion::V1 => 1,
            FormatVersion::V2 => 2,
        }
    }

    /// The number of the version, as metadata files give it.
    #[verifier::when_used_as_spec(spec_number)]
    pub fn number(self) -> (r: u8)
        ensures
            r == self.spec_number(),
    {
        match self {
            FormatVersion::V1 => 1,
            FormatVersion::V2 => 2,
        }
    }

    /// The version with this number.
    pub fn from_number(number: u8) -> (r: Option<FormatVersion>)
        ensures
            match r {
                Some(v) => v.spec_number() == number,
                None => number != 1 && number != 2,
            },
    {
        if number == 1 {
            Some(FormatVersion::V1)
        } else if number == 2 {
            Some(FormatVersion::V2)
        } else {
            None
        }
    }

    /// The short name of the version.
    pub fn to_string(&self) -> (r: String)
        ensures
            r@ == (match *self {
                FormatVersion::V1 => "v1"@,
                FormatVersion::V2 => "v2"@,
            }),
    {
        match self {
            FormatVersion::V1 => "v1".to_owned(),
            FormatVersion::V2 => "v2".to_owned(),
        }
    }
}

/// Versions stand in the order of their numbers.
impl PartialOrdSpecImpl for FormatVersion {
    open spec fn obeys_partial_cmp_spec() -> bool {
        true
    }

    open spec fn partial_cmp_spec(&self, other: &Self) -> Option<Ordering> {
        if self.spec_number() < other.spec_number() {
            Some(Ordering::Less)
        } else if self.spec_number() == other.spec_number() {
            Some(Ordering::Equal)
        } else {
            Some(Ordering::Greater)
        }
    }
}

impl PartialOrd for FormatVersion {
    fn partial_cmp(&self, other: &Self) -> (r: Option<Ordering>) {
        if self.number() < other.number() {
            Some(Ordering::Less)
        } else if self.number() == other.number() {
            Some(Ordering::Equal)
        } else {
            Some(Ordering::Greater)
        }
    }
}

} // verus!
