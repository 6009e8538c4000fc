//! Where a tablet keeps its framebuffer and how its pixels are laid out.

use vstd::prelude::*;

use crate::version::{version_le, version_lt, FirmwareVersion, HardwareVersion, VersionInfo};

verus! {

/// The device file of the framebuffer on a reMarkable 1.
pub const FRAMEBUFFER_DEVICE: &'static str = "/dev/fb0";

/// The screen height in pixels, the same on every supported tablet.
pub const SCREEN_HEIGHT: usize = 1872;

/// The screen width in pixels, the same on every supported tablet.
pub const SCREEN_WIDTH: usize = 1404;

/// Where the framebuffer is read from.
#[derive(Debug, Clone, PartialEq, Eq)]
pub enum FramebufferDataSource {
    /// A file, read from its start.
    File { path: String },
    /// The memory of the `xochitl` process, from the mapping after that of `/dev/fb0`.
    ProcessMemory,
}

#[derive(Debug, Clone, PartialEq, Eq)]
pub struct FramebufferConfig {
    pub source: FramebufferDataSource,
    /// Bytes to skip from where the source's framebuffer data begins.
    pub skip: usize,
}

#[derive(Debug, Clone, Copy, PartialEq, Eq, Structural)]
pub enum PixelFormat {
    Rgb565le,
    Gray8,
    Gray16be,
    Bgra,
}

/// The bytes that one pixel of `format` takes.
pub open spec fn pixel_bytes(format: PixelFormat) -> usize {
    match format {
        PixelFormat::Rgb565le => 2,
        PixelFormat::Gray8 => 1,
        PixelFormat::Gray16be => 2,
        PixelFormat::Bgra => 4,
    }
}

impl PixelFormat {
    pub fn bytes_per_pixel(&self) -> (r: usize)
        ensures
            r == pixel_bytes(*self),
    {
        match self {
            PixelFormat::Rgb565le => 2,
            PixelFormat::Gray8 => 1,
            PixelFormat::Gray16be => 2,
            PixelFormat::Bgra => 4,
        }
    }
}

#[derive(Debug, Clone, Copy, PartialEq, Eq, Structural)]
pub struct VideoConfig {
    pub height: usize,
    pub width: usize,
    pub bytes_per_pixel: usize,
    pub pixel_format: PixelFormat,
}

#[derive(Debug, Clone, PartialEq, Eq)]
pub struct DeviceConfig {
    pub framebuffer_config: FramebufferConfig,
    pub video_config: VideoConfig,
}

/// The firmware generations whose framebuffers a reMarkable 2 lays out differently.
#[derive(Debug, Clone, Copy, PartialEq, Eq, Structural)]
pub enum DeviceConfigVersion {
    Ancient,
    V3,
    V3P7,
    V3P24,
}

/// Why no configuration is known for a tablet.
#[derive(Debug, Clone, Copy, PartialEq, Eq, Structural)]
pub enum ConfigError {
    /// A reMarkable 2 with a firmware older than 3.0.
    UnknownRm2Firmware(FirmwareVersion),
    /// A reMarkable Paper Pro.
    UnsupportedPaperPro,
}

/// Firmware 3.0.0.0, the first of generation `V3`.
pub open spec fn release_3_0() -> FirmwareVersion {
    FirmwareVersion { version: 3, major: 0, minor: 0, patch: 0 }
}

/// Firmware 3.7.0.1930, the first of generation `V3P7`.
pub open spec fn release_3_7() -> FirmwareVersion {
    FirmwareVersion { version: 3, major: 7, minor: 0, patch: 1930 }
}

/// Firmware 3.24.0.0, the first of generation `V3P24`.
pub open spec fn release_3_24() -> FirmwareVersion {
    FirmwareVersion { version: 3, major: 24, minor: 0, patch: 0 }
}

/// The generation of the firmware `v`: that of the latest generation whose first
/// release is not after `v`.
pub open spec fn config_version_for(v: FirmwareVersion) -> DeviceConfigVersion {
    if version_le(release_3_24(), v) {
        DeviceConfigVersion::V3P24
    } else if version_le(release_3_7(), v) {
        DeviceConfigVersion::V3P7
    } else if version_le(release_3_0(), v) {
        DeviceConfigVersion::V3
    } else {
        DeviceConfigVersion::Ancient
    }
}

/// The position of a generation in time.
pub open spec fn generation_rank(v: DeviceConfigVersion) -> int {
    match v {
        DeviceConfigVersion::Ancient => 0,
        DeviceConfigVersion::V3 => 1,
        DeviceConfigVersion::V3P7 => 2,
        DeviceConfigVersion::V3P24 => 3,
    }
}

fn version_3_0() -> (v: FirmwareVersion)
    ensures
        v == release_3_0(),
{
    FirmwareVersion { version: 3, major: 0, minor: 0, patch: 0 }
}

fn version_3_7() -> (v: FirmwareVersion)
    ensures
        v == release_3_7(),
{
    FirmwareVersion { version: 3, major: 7, minor: 0, patch: 1930 }
}

fn version_3_24() -> (v: FirmwareVersion)
    ensures
        v == release_3_24(),
{
    FirmwareVersion { version: 3, major: 24, minor: 0, patch: 0 }
}

impl vstd::std_specs::convert::FromSpecImpl<FirmwareVersion> for DeviceConfigVersion {
    open spec fn obeys_from_spec() -> bool {
        true
    }

    open spec fn from_spec(v: FirmwareVersion) -> DeviceConfigVersion {
        config_version_for(v)
    }
}

impl From<FirmwareVersion> for DeviceConfigVersion {
    fn from(value: FirmwareVersion) -> (r: DeviceConfigVersion) {
        if value >= version_3_24() {
            DeviceConfigVersion::V3P24
        } else if value >= version_3_7() {
            DeviceConfigVersion::V3P7
        } else if value >= version_3_0() {
            DeviceConfigVersion::V3
        } else {
            DeviceConfigVersion::Ancient
        }
    }
}

/// A later firmware never belongs to an earlier generation.
pub proof fn lemma_config_version_monotonic(a: FirmwareVersion, b: FirmwareVersion)
    requires
        version_le(a, b),
    ensures
        generation_rank(config_version_for(a)) <= generation_rank(config_version_for(b)),
{
}

/// A configuration is known exactly for the reMarkable 1, and for the reMarkable 2
/// from firmware 3.0 on.
pub proof fn lemma_supported_devices(version_info: VersionInfo)
    ensures
        spec_device_layout(version_info) is Ok <==> (version_info.hardware == HardwareVersion::Rm1
            || (version_info.hardware == HardwareVersion::Rm2 && version_le(
            release_3_0(),
            version_info.firmware,
        ))),
{
}

/// The firmware generations begin at releases 3.0.0.0, 3.7.0.1930 and 3.24.0.0:
/// each firmware belongs to the generation whose first release it has reached and
/// whose successor's it has not.
pub proof fn lemma_generation_boundaries(v: FirmwareVersion)
    ensures
        (config_version_for(v) == DeviceConfigVersion::V3P24) <==> version_le(
            FirmwareVersion { version: 3, major: 24, minor: 0, patch: 0 },
            v,
        ),
        (config_version_for(v) == DeviceConfigVersion::V3P7) <==> (version_le(
            FirmwareVersion { version: 3, major: 7, minor: 0, patch: 1930 },
            v,
        ) && version_lt(v, FirmwareVersion { version: 3, major: 24, minor: 0, patch: 0 })),
        (config_version_for(v) == DeviceConfigVersion::V3) <==> (version_le(
            FirmwareVersion { version: 3, major: 0, minor: 0, patch: 0 },
            v,
        ) && version_lt(v, FirmwareVersion { version: 3, major: 7, minor: 0, patch: 1930 })),
        (config_version_for(v) == DeviceConfigVersion::Ancient) <==> version_lt(
            v,
            FirmwareVersion { version: 3, major: 0, minor: 0, patch: 0 },
        ),
{
}

/// The layout of each tablet: the reMarkable 1 reads the framebuffer device, skips 8
/// bytes and has RGB565 pixels, whatever its firmware; the reMarkable 2 reads the
/// process's memory, with 8-bit gray pixels from firmware 3.0, 16-bit gray from
/// 3.7.0.1930 and BGRA after 2629636 bytes from 3.24, and is refused before 3.0; the
/// Paper Pro is refused.
pub proof fn lemma_device_layouts(firmware: FirmwareVersion)
    ensures
        spec_device_layout(VersionInfo { hardware: HardwareVersion::Rm1, firmware }) == Ok::<
            (bool, usize, PixelFormat),
            ConfigError,
        >((true, 8usize, PixelFormat::Rgb565le)),
        spec_device_layout(VersionInfo { hardware: HardwareVersion::Ferrari, firmware }) == Err::<
            (bool, usize, PixelFormat),
            ConfigError,
        >(ConfigError::UnsupportedPaperPro),
        version_lt(firmware, FirmwareVersion { version: 3, major: 0, minor: 0, patch: 0 })
            ==> spec_device_layout(VersionInfo { hardware: HardwareVersion::Rm2, firmware })
            == Err::<(bool, usize, PixelFormat), ConfigError>(
            ConfigError::UnknownRm2Firmware(firmware),
        ),
        version_le(FirmwareVersion { version: 3, major: 0, minor: 0, patch: 0 }, firmware)
            && version_lt(firmware, FirmwareVersion { version: 3, major: 7, minor: 0, patch: 1930 })
            ==> spec_device_layout(VersionInfo { hardware: HardwareVersion::Rm2, firmware })
            == Ok::<(bool, usize, PixelFormat), ConfigError>((false, 8usize, PixelFormat::Gray8)),
        version_le(FirmwareVersion { version: 3, major: 7, minor: 0, patch: 1930 }, firmware)
            && version_lt(firmware, FirmwareVersion { version: 3, major: 24, minor: 0, patch: 0 })
            ==> spec_device_layout(VersionInfo { hardware: HardwareVersion::Rm2, firmware })
            == Ok::<(bool, usize, PixelFormat), ConfigError>((false, 8usize, PixelFormat::Gray16be)),
        version_le(FirmwareVersion { version: 3, major: 24, minor: 0, patch: 0 }, firmware)
            ==> spec_device_layout(VersionInfo { hardware: HardwareVersion::Rm2, firmware })
            == Ok::<(bool, usize, PixelFormat), ConfigError>(
            (false, 2629636usize, PixelFormat::Bgra),
        ),
{
    lemma_generation_boundaries(firmware);
}

/// Where the framebuffer of a tablet is and how it is laid out: whether it is the
/// framebuffer device file (or else the `xochitl` process's memory), how many bytes
/// to skip, and the pixel format.
pub open spec fn spec_device_layout(version_info: VersionInfo) -> Result<
    (bool, usize, PixelFormat),
    ConfigError,
> {
    match version_info.hardware {
        HardwareVersion::Rm1 => Ok((true, 8, PixelFormat::Rgb565le)),
        HardwareVersion::Rm2 => match config_version_for(version_info.firmware) {
            DeviceConfigVersion::Ancient => Err(
                ConfigError::UnknownRm2Firmware(version_info.firmware),
            ),
            DeviceConfigVersion::V3 => Ok((false, 8, PixelFormat::Gray8)),
            DeviceConfigVersion::V3P7 => Ok((false, 8, PixelFormat::Gray16be)),
            DeviceConfigVersion::V3P24 => Ok((false, 2629636, PixelFormat::Bgra)),
        },
        HardwareVersion::Ferrari => Err(ConfigError::UnsupportedPaperPro),
    }
}

/// `config` describes the layout `(from_device_file, skip, format)` of a full screen.
pub open spec fn describes_layout(
    config: DeviceConfig,
    from_device_file: bool,
    skip: usize,
    format: PixelFormat,
) -> bool {
    &&& if from_device_file {
        config.framebuffer_config.source matches FramebufferDataSource::File { path } && path@
            == FRAMEBUFFER_DEVICE@
    } else {
        config.framebuffer_config.source is ProcessMemory
    }
    &&& config.framebuffer_config.skip == skip
    &&& config.video_config == VideoConfig {
        height: SCREEN_HEIGHT,
        width: SCREEN_WIDTH,
        bytes_per_pixel: pixel_bytes(format),
        pixel_format: format,
    }
}

fn screen_config(format: PixelFormat) -> (r: VideoConfig)
    ensures
        r == (VideoConfig {
            height: SCREEN_HEIGHT,
            width: SCREEN_WIDTH,
            bytes_per_pixel: pixel_bytes(format),
            pixel_format: format,
        }),
{
    VideoConfig {
        height: SCREEN_HEIGHT,
        width: SCREEN_WIDTH,
        bytes_per_pixel: format.bytes_per_pixel(),
        pixel_format: format,
    }
}

impl DeviceConfig {
    /// The configuration for the tablet that `version_info` describes.
    pub fn new(version_info: VersionInfo) -> (r: Result<DeviceConfig, ConfigError>)
        ensures
            match spec_device_layout(version_info) {
                Ok((from_device_file, skip, format)) => r matches Ok(config) && describes_layout(
                    config,
                    from_device_file,
                    skip,
                    format,
                ),
                Err(e) => r == Err::<DeviceConfig, ConfigError>(e),
            },
            r matches Ok(config) ==> config.video_config.bytes_per_pixel == pixel_bytes(
                config.video_config.pixel_format,
            ),
    {
        match version_info.hardware {
            HardwareVersion::Rm1 => Ok(
                DeviceConfig {
                    framebuffer_config: FramebufferConfig {
                        source: FramebufferDataSource::File {
                            path: String::from_str(FRAMEBUFFER_DEVICE),
                        },
                        skip: 8,
                    },
                    video_config: screen_config(PixelFormat::Rgb565le),
                },
            ),
            HardwareVersion::Rm2 => {
                let rm2_config_version = DeviceConfigVersion::from(version_info.firmware);
                match rm2_config_version {
                    DeviceConfigVersion::Ancient => Err(
                        ConfigError::UnknownRm2Firmware(version_info.firmware),
                    ),
                    DeviceConfigVersion::V3 => Ok(
                        DeviceConfig {
                            framebuffer_config: FramebufferConfig {
                                source: FramebufferDataSource::ProcessMemory,
                                skip: 8,
                            },
                            video_config: screen_config(PixelFormat::Gray8),
                        },
                    ),
                    DeviceConfigVersion::V3P7 => Ok(
                        DeviceConfig {
                            framebuffer_config: FramebufferConfig {
                                source: FramebufferDataSource::ProcessMemory,
                                skip: 8,
                            },
                            video_config: screen_config(PixelFormat::Gray16be),
                        },
                    ),
                    DeviceConfigVersion::V3P24 => Ok(
                        DeviceConfig {
                            framebuffer_config: FramebufferConfig {
                                source: FramebufferDataSource::ProcessMemory,
                                skip: 2629636,
                            },
                            video_config: screen_config(PixelFormat::Bgra),
                        },
                    ),
                }
            },
            HardwareVersion::Ferrari => Err(ConfigError::UnsupportedPaperPro),
        }
    }
}

} // verus!
