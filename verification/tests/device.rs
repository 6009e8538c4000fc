use review::config::device::{
    ConfigError, DeviceConfig, FramebufferDataSource, PixelFormat, VideoConfig,
};
use review::version::{FirmwareVersion, HardwareVersion, VersionInfo};

fn info(hardware: HardwareVersion, version: usize, major: usize, minor: usize, patch: usize) -> VersionInfo {
    VersionInfo { hardware, firmware: FirmwareVersion { version, major, minor, patch } }
}

fn screen(bytes_per_pixel: usize, pixel_format: PixelFormat) -> VideoConfig {
    VideoConfig { height: 1872, width: 1404, bytes_per_pixel, pixel_format }
}

#[test]
fn bytes_per_pixel_of_formats() {
    assert_eq!(PixelFormat::Rgb565le.bytes_per_pixel(), 2);
    assert_eq!(PixelFormat::Gray8.bytes_per_pixel(), 1);
    assert_eq!(PixelFormat::Gray16be.bytes_per_pixel(), 2);
    assert_eq!(PixelFormat::Bgra.bytes_per_pixel(), 4);
}

#[test]
fn rm1_reads_the_framebuffer_device() {
    let config = DeviceConfig::new(info(HardwareVersion::Rm1, 1, 0, 0, 0)).unwrap();
    assert_eq!(
        config.framebuffer_config.source,
        FramebufferDataSource::File { path: "/dev/fb0".to_string() }
    );
    assert_eq!(config.framebuffer_config.skip, 8);
    assert_eq!(config.video_config, screen(2, PixelFormat::Rgb565le));
}

#[test]
fn rm2_layout_follows_firmware_generation() {
    let v3 = DeviceConfig::new(info(HardwareVersion::Rm2, 3, 5, 2, 0)).unwrap();
    assert_eq!(v3.framebuffer_config.source, FramebufferDataSource::ProcessMemory);
    assert_eq!(v3.framebuffer_config.skip, 8);
    assert_eq!(v3.video_config, screen(1, PixelFormat::Gray8));

    let v3p7 = DeviceConfig::new(info(HardwareVersion::Rm2, 3, 7, 0, 1930)).unwrap();
    assert_eq!(v3p7.framebuffer_config.source, FramebufferDataSource::ProcessMemory);
    assert_eq!(v3p7.framebuffer_config.skip, 8);
    assert_eq!(v3p7.video_config, screen(2, PixelFormat::Gray16be));

    let v3p24 = DeviceConfig::new(info(HardwareVersion::Rm2, 3, 25, 0, 119)).unwrap();
    assert_eq!(v3p24.framebuffer_config.source, FramebufferDataSource::ProcessMemory);
    assert_eq!(v3p24.framebuffer_config.skip, 2629636);
    assert_eq!(v3p24.video_config, screen(4, PixelFormat::Bgra));
}

#[test]
fn unsupported_devices_are_refused() {
    let firmware = FirmwareVersion { version: 2, major: 15, minor: 1, patch: 1 };
    assert_eq!(
        DeviceConfig::new(VersionInfo { hardware: HardwareVersion::Rm2, firmware }),
        Err(ConfigError::UnknownRm2Firmware(firmware))
    );
    assert_eq!(
        DeviceConfig::new(info(HardwareVersion::Ferrari, 3, 20, 0, 0)),
        Err(ConfigError::UnsupportedPaperPro)
    );
}

#[test]
fn configured_bytes_per_pixel_matches_format() {
    for v in [
        info(HardwareVersion::Rm1, 3, 0, 0, 0),
        info(HardwareVersion::Rm2, 3, 0, 0, 0),
        info(HardwareVersion::Rm2, 3, 10, 0, 0),
        info(HardwareVersion::Rm2, 3, 24, 0, 0),
    ] {
        let c = DeviceConfig::new(v).unwrap();
        assert_eq!(c.video_config.bytes_per_pixel, c.video_config.pixel_format.bytes_per_pixel());
    }
}
