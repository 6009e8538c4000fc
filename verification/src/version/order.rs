//! The order of firmware versions: by version, then major, minor and patch number.

use vstd::prelude::*;
use vstd::std_specs::cmp::PartialOrdSpecImpl;
use core::cmp::Ordering;

use super::FirmwareVersion;

verus! {

/// `a` comes before `b`: the first field in which they differ, in the order version,
/// major, minor, patch, is smaller in `a`.
pub open spec fn version_lt(a: FirmwareVersion, b: FirmwareVersion) -> bool {
    ||| a.version < b.version
    ||| a.version == b.version && a.major < b.major
    ||| a.version == b.version && a.major == b.major && a.minor < b.minor
    ||| a.version == b.version && a.major == b.major && a.minor == b.minor && a.patch < b.patch
}

pub open spec fn version_le(a: FirmwareVersion, b: FirmwareVersion) -> bool {
    version_lt(a, b) || a == b
}

impl PartialOrdSpecImpl for FirmwareVersion {
    open spec fn obeys_partial_cmp_spec() -> bool {
        true
    }

    open spec fn partial_cmp_spec(&self, other: &FirmwareVersion) -> Option<Ordering> {
        if version_lt(*self, *other) {
            Some(Ordering::Less)
        } else if *self == *other {
            Some(Ordering::Equal)
        } else {
            Some(Ordering::Greater)
        }
    }
}

impl PartialOrd for FirmwareVersion {
    fn partial_cmp(&self, other: &FirmwareVersion) -> (r: Option<Ordering>) {
        if self.version != other.version {
            return if self.version < other.version {
                Some(Ordering::Less)
            } else {
                Some(Ordering::Greater)
            };
        }
        if self.major != other.major {
            return if self.major < other.major {
                Some(Ordering::Less)
            } else {
                Some(Ordering::Greater)
            };
        }
        if self.minor != other.minor {
            return if self.minor < other.minor {
                Some(Ordering::Less)
            } else {
                Some(Ordering::Greater)
            };
        }
        if self.patch < other.patch {
            Some(Ordering::Less)
        } else if self.patch == other.patch {
            Some(Ordering::Equal)
        } else {
            Some(Ordering::Greater)
        }
    }
}

/// Any two firmware versions are comparable, and exactly one of `a < b`, `a == b`,
/// `b < a` holds.
pub proof fn lemma_firmware_order_total(a: FirmwareVersion, b: FirmwareVersion)
    ensures
        version_lt(a, b) || a == b || version_lt(b, a),
        !(version_lt(a, b) && version_lt(b, a)),
        !version_lt(a, a),
{
}

/// `a <= b` and `b <= a` only where `a == b`.
pub proof fn lemma_firmware_order_antisymmetric(a: FirmwareVersion, b: FirmwareVersion)
    requires
        version_le(a, b),
        version_le(b, a),
    ensures
        a == b,
{
}

/// The order is transitive.
pub proof fn lemma_firmware_order_transitive(
    a: FirmwareVersion,
    b: FirmwareVersion,
    c: FirmwareVersion,
)
    requires
        version_lt(a, b),
        version_lt(b, c),
    ensures
        version_lt(a, c),
{
}

} // verus!
