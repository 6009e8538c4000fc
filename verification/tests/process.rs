use review::process::{find_xochitl_process, framebuffer_offset, MemoryMapping, ProcessError};

fn names(list: &[Option<&str>]) -> Vec<Option<String>> {
    list.iter().map(|n| n.map(|s| s.to_string())).collect()
}

fn mapping(path: Option<&str>, start_address: u64) -> MemoryMapping {
    MemoryMapping { pathname: path.map(|p| p.to_string()), start_address }
}

#[test]
fn xochitl_process_is_found() {
    assert_eq!(find_xochitl_process(&names(&[Some("init"), None, Some("xochitl"), Some("sh")])), Ok(2));
}

#[test]
fn xochitl_process_must_be_unique() {
    assert_eq!(
        find_xochitl_process(&names(&[Some("xochitl"), Some("sh"), Some("xochitl")])),
        Err(ProcessError::SeveralXochitlProcesses)
    );
    assert_eq!(
        find_xochitl_process(&names(&[Some("init"), None, Some("xochitl2")])),
        Err(ProcessError::NoXochitlProcess)
    );
    assert_eq!(find_xochitl_process(&Vec::new()), Err(ProcessError::NoXochitlProcess));
}

#[test]
fn framebuffer_follows_device_mapping() {
    let maps = vec![
        mapping(Some("/usr/bin/xochitl"), 0x1000),
        mapping(Some("/dev/fb0"), 0x2000),
        mapping(None, 0x7300_0000),
        mapping(Some("/usr/lib/libc.so"), 0x8000),
    ];
    assert_eq!(framebuffer_offset(&maps), Ok(0x7300_0000));
}

#[test]
fn framebuffer_device_mapped_twice_is_refused() {
    let maps = vec![
        mapping(Some("/dev/fb0"), 0x2000),
        mapping(None, 0x3000),
        mapping(None, 0x4000),
        mapping(Some("/dev/fb0"), 0x5000),
    ];
    assert_eq!(framebuffer_offset(&maps), Err(ProcessError::SeveralFramebufferMappings));
}

#[test]
fn mapping_right_after_the_device_may_be_the_device() {
    let maps = vec![mapping(Some("/dev/fb0"), 0x2000), mapping(Some("/dev/fb0"), 0x3000)];
    assert_eq!(framebuffer_offset(&maps), Ok(0x3000));
}
