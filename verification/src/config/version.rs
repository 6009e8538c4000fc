//! Version checks as the tablet's configuration reads them: the firmware generation
//! and the hardware model, from the contents of the device's system files.

use vstd::prelude::*;

use crate::text::trim;
use crate::version::{
    firmware_version_incomplete, spec_parse_firmware_version, spec_parse_hardware_version,
    VersionError,
};

pub use crate::version::{FirmwareVersion, HardwareVersion};

use super::device::{config_version_for, DeviceConfigVersion};

verus! {

/// The firmware generation, as the configuration names it.
#[derive(Debug, Clone, Copy, PartialEq, Eq, Structural)]
pub enum ConfigVersion {
    Ancient,
    V3,
    V3P7,
    V3P24,
}

pub open spec fn config_version_of(v: DeviceConfigVersion) -> ConfigVersion {
    match v {
        DeviceConfigVersion::Ancient => ConfigVersion::Ancient,
        DeviceConfigVersion::V3 => ConfigVersion::V3,
        DeviceConfigVersion::V3P7 => ConfigVersion::V3P7,
        DeviceConfigVersion::V3P24 => ConfigVersion::V3P24,
    }
}

/// The firmware version that the update configuration states, and its generation.
pub fn get_firmware_version(update_file_content: &str) -> (r: Result<
    (FirmwareVersion, ConfigVersion),
    VersionError,
>)
    requires
        !firmware_version_incomplete(trim(update_file_content@)),
    ensures
        r == match spec_parse_firmware_version(trim(update_file_content@)) {
            Err(e) => Err(e),
            Ok(v) => Ok((v, config_version_of(config_version_for(v)))),
        },
{
    let firmware_version = FirmwareVersion::get_from_device(update_file_content)?;
    let config_version = get_config_version(&firmware_version)?;
    Ok((firmware_version, config_version))
}

/// The generation of the firmware `version`; it is never refused.
pub fn get_config_version(version: &FirmwareVersion) -> (r: Result<ConfigVersion, VersionError>)
    ensures
        r == Ok::<ConfigVersion, VersionError>(config_version_of(config_version_for(*version))),
{
    Ok(
        match DeviceConfigVersion::from(*version) {
            DeviceConfigVersion::Ancient => ConfigVersion::Ancient,
            DeviceConfigVersion::V3 => ConfigVersion::V3,
            DeviceConfigVersion::V3P7 => ConfigVersion::V3P7,
            DeviceConfigVersion::V3P24 => ConfigVersion::V3P24,
        },
    )
}

/// Reads a firmware version from a line such as `REMARKABLE_RELEASE_VERSION=3.7.0.1930`.
pub fn parse_version(input: &str) -> (r: Result<FirmwareVersion, VersionError>)
    requires
        !firmware_version_incomplete(input@),
    ensures
        r == spec_parse_firmware_version(input@),
{
    FirmwareVersion::from_str(input)
}

/// The hardware version that the machine file states.
pub fn get_hardware_version(machine_file_content: &str) -> (r: Result<HardwareVersion, VersionError>)
    ensures
        r == spec_parse_hardware_version(trim(machine_file_content@)),
{
    HardwareVersion::get_from_device(machine_file_content)
}

/// Reads the hardware version from a line such as `reMarkable 2.0`.
pub fn parse_hardware_version(input: &str) -> (r: Result<HardwareVersion, VersionError>)
    ensures
        r == spec_parse_hardware_version(input@),
{
    HardwareVersion::from_str(input)
}

} // verus!
