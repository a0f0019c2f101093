use droid_view::device::{Device, DeviceStatus, parse_device_list, parse_dimensions};

fn device(status: DeviceStatus) -> Device {
    Device {
        identifier: String::from("abc"),
        status,
        product: String::from("p"),
        model: String::from("m"),
        device: String::from("d"),
        transport_id: String::from("1"),
    }
}

#[test]
fn usable_only_when_ready() {
    assert!(device(DeviceStatus::Device).is_usable());
    assert!(!device(DeviceStatus::Offline).is_usable());
    assert!(!device(DeviceStatus::Unauthorized).is_usable());
    assert!(!device(DeviceStatus::NoPermission).is_usable());
    assert!(!device(DeviceStatus::Unknown(String::from("weird"))).is_usable());
}

#[test]
fn status_words() {
    assert!(matches!(DeviceStatus::parse("device"), DeviceStatus::Device));
    assert!(matches!(DeviceStatus::parse("offline"), DeviceStatus::Offline));
    assert!(matches!(DeviceStatus::parse("unauthorized"), DeviceStatus::Unauthorized));
    assert!(matches!(DeviceStatus::parse("no_permission"), DeviceStatus::NoPermission));
    match DeviceStatus::parse("sideload") {
        DeviceStatus::Unknown(s) => assert_eq!(s, "sideload"),
        _ => panic!("expected an unknown status"),
    }
}

#[test]
fn detailed_listing() {
    let out = "List of devices attached\n\
        emulator-5554          device product:sdk_gphone64 model:sdk_gphone64_x86_64 device:emu64x transport_id:1\n\
        192.168.1.5:5555       offline transport_id:2\n\
        \n";
    let devices = parse_device_list(out);
    assert_eq!(devices.len(), 2);
    assert_eq!(devices[0].identifier, "emulator-5554");
    assert!(matches!(devices[0].status, DeviceStatus::Device));
    assert_eq!(devices[0].product, "sdk_gphone64");
    assert_eq!(devices[0].model, "sdk_gphone64_x86_64");
    assert_eq!(devices[0].device, "emu64x");
    assert_eq!(devices[0].transport_id, "1");
    assert_eq!(devices[1].identifier, "192.168.1.5:5555");
    assert!(matches!(devices[1].status, DeviceStatus::Offline));
    assert_eq!(devices[1].product, "unknown");
    assert_eq!(devices[1].transport_id, "2");
}

#[test]
fn detailed_listing_no_permission() {
    let out = "List of devices attached\nabc no_permission\n";
    let devices = parse_device_list(out);
    assert_eq!(devices.len(), 1);
    assert!(matches!(devices[0].status, DeviceStatus::NoPermission));
}

#[test]
fn detailed_listing_skips_short_lines() {
    let out = "List of devices attached\nlonely\n\nabc device\n";
    let devices = parse_device_list(out);
    assert_eq!(devices.len(), 1);
    assert_eq!(devices[0].identifier, "abc");
}

#[test]
fn dimensions_physical() {
    assert_eq!(parse_dimensions("Physical size: 1080x2400\n"), Some((1080, 2400)));
    assert_eq!(parse_dimensions("Override size: 720x1280"), Some((720, 1280)));
}

#[test]
fn dimensions_take_first_parsable_line() {
    let out = "Physical size: garbage\nOverride size: 1440x3200\n";
    assert_eq!(parse_dimensions(out), Some((1440, 3200)));
}

#[test]
fn dimensions_absent() {
    assert_eq!(parse_dimensions(""), None);
    assert_eq!(parse_dimensions("nothing to see\n"), None);
    // Two colons make three fields, which the size line may not have.
    assert_eq!(parse_dimensions("Physical size: 1:080x2400\n"), None);
}
