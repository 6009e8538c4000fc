use review::config::device::DeviceConfig;
use review::frame::{decode_frame, encode_frame, FrameError, FrameGeometry};
use review::version::{FirmwareVersion, HardwareVersion, VersionInfo};

fn rm2_config() -> DeviceConfig {
    DeviceConfig::new(VersionInfo {
        hardware: HardwareVersion::Rm2,
        firmware: FirmwareVersion { version: 3, major: 7, minor: 0, patch: 1930 },
    })
    .unwrap()
}

#[test]
fn geometry_of_a_device_config() {
    let g = FrameGeometry::new(&rm2_config(), 1000);
    assert_eq!(g, FrameGeometry { offset: 1008, width: 1404, height: 1872, bytes_per_pixel: 2 });
    assert_eq!(g.frame_length(), 1404 * 1872 * 2);
}

#[test]
fn buffer_length_is_checked() {
    let g = FrameGeometry { offset: 0, width: 4, height: 3, bytes_per_pixel: 2 };
    assert_eq!(g.check_buffer(24), Ok(()));
    assert_eq!(g.check_buffer(23), Err(FrameError::BufferLength { actual: 23, expected: 24 }));
    assert_eq!(
        encode_frame(&g, &[0u8; 10]),
        Err(FrameError::BufferLength { actual: 10, expected: 24 })
    );
}

#[test]
fn encoded_frame_decodes_to_itself() {
    let g = FrameGeometry { offset: 0, width: 16, height: 8, bytes_per_pixel: 4 };
    let frame: Vec<u8> = (0..512u32).map(|i| (i * 7 % 13) as u8).collect();
    let encoded = encode_frame(&g, &frame).unwrap();
    assert_ne!(encoded, frame);
    assert_eq!(&encoded[..4], &512u32.to_le_bytes());
    assert_eq!(decode_frame(&encoded), Ok(frame));
}

#[test]
fn uniform_frame_compresses() {
    let g = FrameGeometry { offset: 0, width: 100, height: 100, bytes_per_pixel: 1 };
    let frame = vec![0xffu8; 10000];
    let encoded = encode_frame(&g, &frame).unwrap();
    assert!(encoded.len() < 200);
    assert_eq!(decode_frame(&encoded), Ok(frame));
}

#[test]
fn malformed_frames_are_refused() {
    assert_eq!(decode_frame(&[]), Err(FrameError::Decompression));
    assert_eq!(decode_frame(&[1, 0]), Err(FrameError::Decompression));
    assert_eq!(decode_frame(&[10, 0, 0, 0, 0xff]), Err(FrameError::Decompression));
}
