use std::cmp::Ordering;

use review::config::device::DeviceConfigVersion;
use review::config::version::{
    get_config_version, get_firmware_version, get_hardware_version, parse_hardware_version,
    parse_version, ConfigVersion,
};
use review::version::{FirmwareVersion, HardwareVersion, VersionError, VersionInfo};

fn fw(version: usize, major: usize, minor: usize, patch: usize) -> FirmwareVersion {
    FirmwareVersion { version, major, minor, patch }
}

#[test]
fn parse_framebuffer_version_from_string() {
    struct TestCase<'a> {
        input: &'a str,
        expected: FirmwareVersion,
    }

    for TestCase { input, expected } in [
        TestCase {
            input: "REMARKABLE_RELEASE_VERSION=2.0.0.0",
            expected: FirmwareVersion { version: 2, major: 0, minor: 0, patch: 0 },
        },
        TestCase {
            input: "REMARKABLE_RELEASE_VERSION=3.7.0.1930",
            expected: FirmwareVersion { version: 3, major: 7, minor: 0, patch: 1930 },
        },
        TestCase {
            input: "REMARKABLE_RELEASE_VERSION=3.25.0.119",
            expected: FirmwareVersion { version: 3, major: 25, minor: 0, patch: 119 },
        },
    ] {
        let result = FirmwareVersion::from_str(input).expect("could not parse version");
        assert_eq!(expected, result, "version input '{}'", input);
    }
}

#[test]
fn parse_config_version_from_string() {
    struct TestCase {
        input: FirmwareVersion,
        expected: DeviceConfigVersion,
    }

    for TestCase { input, expected } in [
        TestCase { input: fw(1, 0, 0, 0), expected: DeviceConfigVersion::Ancient },
        TestCase { input: fw(2, 0, 0, 0), expected: DeviceConfigVersion::Ancient },
        TestCase { input: fw(3, 0, 0, 0), expected: DeviceConfigVersion::V3 },
        TestCase { input: fw(3, 7, 0, 0), expected: DeviceConfigVersion::V3 },
        TestCase { input: fw(3, 7, 0, 1929), expected: DeviceConfigVersion::V3 },
        TestCase { input: fw(3, 7, 0, 1930), expected: DeviceConfigVersion::V3P7 },
        TestCase { input: fw(3, 7, 1, 0), expected: DeviceConfigVersion::V3P7 },
        TestCase { input: fw(3, 10, 0, 0), expected: DeviceConfigVersion::V3P7 },
        TestCase { input: fw(3, 24, 0, 0), expected: DeviceConfigVersion::V3P24 },
        TestCase { input: fw(3, 24, 1, 0), expected: DeviceConfigVersion::V3P24 },
        TestCase { input: fw(3, 25, 0, 119), expected: DeviceConfigVersion::V3P24 },
    ] {
        let result = DeviceConfigVersion::from(input);
        assert_eq!(expected, result, "version input: {:?}", input);
    }
}

#[test]
fn hardware_version_names() {
    assert_eq!(HardwareVersion::from_str("reMarkable 1.0"), Ok(HardwareVersion::Rm1));
    assert_eq!(HardwareVersion::from_str("reMarkable 2.0"), Ok(HardwareVersion::Rm2));
    assert_eq!(HardwareVersion::from_str("reMarkable Ferrari"), Ok(HardwareVersion::Ferrari));
}

#[test]
fn hardware_version_refused() {
    assert_eq!(HardwareVersion::from_str("reMarkable2.0"), Err(VersionError::MissingSeparator));
    assert_eq!(HardwareVersion::from_str(""), Err(VersionError::MissingSeparator));
    assert_eq!(
        HardwareVersion::from_str("reMarkable 3.0"),
        Err(VersionError::UnknownHardwareVersion)
    );
    // only the first space separates: the rest must be the name itself
    assert_eq!(
        HardwareVersion::from_str("reMarkable Paper Pro"),
        Err(VersionError::UnknownHardwareVersion)
    );
    assert_eq!(
        HardwareVersion::from_str("reMarkable 2.0 "),
        Err(VersionError::UnknownHardwareVersion)
    );
}

#[test]
fn hardware_version_from_device_content_is_trimmed() {
    assert_eq!(HardwareVersion::get_from_device("reMarkable 2.0\n"), Ok(HardwareVersion::Rm2));
    assert_eq!(HardwareVersion::get_from_device("\t reMarkable 1.0 \r\n"), Ok(HardwareVersion::Rm1));
    assert_eq!(HardwareVersion::get_from_device(" \n"), Err(VersionError::MissingSeparator));
    assert_eq!(
        HardwareVersion::get_from_device("\u{a0}reMarkable Ferrari\u{3000}\u{2028}"),
        Ok(HardwareVersion::Ferrari)
    );
}

#[test]
fn firmware_version_refused() {
    assert_eq!(FirmwareVersion::from_str("3.7.0.1930"), Err(VersionError::MissingSeparator));
    assert_eq!(FirmwareVersion::from_str("V=1.2.3.4.5"), Err(VersionError::TooManyParts));
    assert_eq!(FirmwareVersion::from_str("V=1.a.3.4"), Err(VersionError::InvalidNumber));
    assert_eq!(FirmwareVersion::from_str("V=1..3.4"), Err(VersionError::InvalidNumber));
    assert_eq!(FirmwareVersion::from_str("V=1.2.3.4."), Err(VersionError::InvalidNumber));
    assert_eq!(FirmwareVersion::from_str("V=-1.2.3.4"), Err(VersionError::InvalidNumber));
    assert_eq!(FirmwareVersion::from_str("V=+.2.3.4"), Err(VersionError::InvalidNumber));
    // an invalid part is reported even when there are too many parts
    assert_eq!(FirmwareVersion::from_str("V=1.2.3.4.x"), Err(VersionError::InvalidNumber));
    assert_eq!(
        FirmwareVersion::from_str("V=99999999999999999999999999.0.0.0"),
        Err(VersionError::InvalidNumber)
    );
}

#[test]
fn firmware_version_accepts_plus_sign_and_later_equals() {
    assert_eq!(FirmwareVersion::from_str("V=+3.7.0.1930"), Ok(fw(3, 7, 0, 1930)));
    assert_eq!(FirmwareVersion::from_str("A=B=1.2.3.4"), Err(VersionError::InvalidNumber));
    assert_eq!(FirmwareVersion::from_str("=0.0.0.0"), Ok(fw(0, 0, 0, 0)));
}

#[test]
fn firmware_version_parts() {
    assert_eq!(FirmwareVersion::parse_parts("V=1.2.3").unwrap(), vec![1, 2, 3]);
    assert_eq!(FirmwareVersion::parse_parts("V=7").unwrap(), vec![7]);
    assert_eq!(FirmwareVersion::parse_parts("V=").unwrap_err(), VersionError::InvalidNumber);
    assert_eq!(FirmwareVersion::parse_parts("V=1.2.3.4").unwrap(), vec![1, 2, 3, 4]);
}

#[test]
fn firmware_version_from_device_content_is_trimmed() {
    assert_eq!(
        FirmwareVersion::get_from_device("REMARKABLE_RELEASE_VERSION=3.7.0.1930\n"),
        Ok(fw(3, 7, 0, 1930))
    );
}

#[test]
fn firmware_version_display() {
    assert_eq!(fw(3, 7, 0, 1930).to_version_string(), "3.7.0.1930");
    assert_eq!(fw(0, 0, 0, 0).to_version_string(), "0.0.0.0");
    assert_eq!(
        fw(usize::MAX, 10, 100, 9).to_version_string(),
        format!("{}.10.100.9", usize::MAX)
    );
}

#[test]
fn firmware_version_display_reads_back() {
    for v in [fw(2, 0, 0, 0), fw(3, 25, 0, 119), fw(12, 345, 6789, 10), fw(usize::MAX, 1, 0, 9)] {
        let line = format!("REMARKABLE_RELEASE_VERSION={}", v.to_version_string());
        assert_eq!(FirmwareVersion::from_str(&line), Ok(v));
    }
}

#[test]
fn firmware_version_order_is_lexicographic() {
    assert_eq!(fw(3, 7, 0, 1930).partial_cmp(&fw(3, 7, 0, 1930)), Some(Ordering::Equal));
    assert_eq!(fw(3, 7, 0, 1929).partial_cmp(&fw(3, 7, 0, 1930)), Some(Ordering::Less));
    assert_eq!(fw(3, 7, 1, 0).partial_cmp(&fw(3, 7, 0, 1930)), Some(Ordering::Greater));
    assert_eq!(fw(2, 99, 99, 99).partial_cmp(&fw(3, 0, 0, 0)), Some(Ordering::Less));
    assert!(fw(3, 24, 0, 0) >= fw(3, 24, 0, 0));
    assert!(fw(3, 10, 0, 0) < fw(3, 24, 0, 0));
    assert_eq!(fw(4, 0, 0, 0).cmp(&fw(3, 99, 0, 0)), Ordering::Greater);
}

#[test]
fn version_info_from_device_contents() {
    assert_eq!(
        VersionInfo::get_from_device("reMarkable 2.0\n", "REMARKABLE_RELEASE_VERSION=3.25.0.119\n"),
        Ok(VersionInfo { hardware: HardwareVersion::Rm2, firmware: fw(3, 25, 0, 119) })
    );
    assert_eq!(
        VersionInfo::get_from_device("reMarkable 4.0\n", "no version"),
        Err(VersionError::UnknownHardwareVersion)
    );
    assert_eq!(
        VersionInfo::get_from_device("reMarkable 1.0\n", "no version"),
        Err(VersionError::MissingSeparator)
    );
}

#[test]
fn config_version_of_device_files() {
    assert_eq!(
        get_firmware_version("REMARKABLE_RELEASE_VERSION=3.7.0.1930\n"),
        Ok((fw(3, 7, 0, 1930), ConfigVersion::V3P7))
    );
    assert_eq!(get_config_version(&fw(2, 15, 1, 0)), Ok(ConfigVersion::Ancient));
    assert_eq!(get_config_version(&fw(3, 0, 0, 0)), Ok(ConfigVersion::V3));
    assert_eq!(get_config_version(&fw(3, 24, 0, 0)), Ok(ConfigVersion::V3P24));
    assert_eq!(parse_version("X=3.1.2.3"), Ok(fw(3, 1, 2, 3)));
    assert_eq!(get_hardware_version(" reMarkable Ferrari\n"), Ok(HardwareVersion::Ferrari));
    assert_eq!(parse_hardware_version("reMarkable 1.0"), Ok(HardwareVersion::Rm1));
}
