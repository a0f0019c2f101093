use droid_view::bridge::{AdbBridge, ScrcpyBridge, connect_error_report, endpoint_string,
    parse_devices_output};

#[test]
fn bridge_paths() {
    let adb = AdbBridge::new(String::from("/usr/bin/adb"));
    assert_eq!(adb.path(), "/usr/bin/adb");
    let scrcpy = ScrcpyBridge::new(String::from("/usr/bin/scrcpy"));
    assert_eq!(scrcpy.path(), "/usr/bin/scrcpy");
}

#[test]
fn adb_argument_vectors() {
    let adb = AdbBridge::new(String::from("adb"));
    assert_eq!(adb.devices_args(), vec!["devices"]);
    assert_eq!(
        adb.shell_args("wm size", Some("emulator-5554")),
        vec!["-s", "emulator-5554", "shell", "wm size"]
    );
    assert_eq!(adb.shell_args("ls", None), vec!["shell", "ls"]);
    assert_eq!(
        adb.tcpip_args(5555, Some("abc")),
        vec!["-s", "abc", "-d", "tcpip", "5555"]
    );
    assert_eq!(adb.connect_args("192.168.1.2", 5555), vec!["connect", "192.168.1.2:5555"]);
    assert_eq!(
        adb.pair_args("192.168.1.2", 37099, "123456"),
        vec!["pair", "192.168.1.2:37099", "123456"]
    );
}

#[test]
fn endpoint_text_form() {
    assert_eq!(endpoint_string("10.0.0.7", 5555), "10.0.0.7:5555");
}

#[test]
fn mirror_args_full() {
    let scrcpy = ScrcpyBridge::new(String::from("scrcpy"));
    let args = scrcpy.build_args(
        Some("emulator-5554"),
        "8M",
        Some(String::from("90")),
        true,
        true,
        Some(1024),
        "--no-audio  --stay-awake",
        true,
    );
    assert_eq!(
        args,
        vec![
            "-s",
            "emulator-5554",
            "-b",
            "8M",
            "--orientation",
            "90",
            "--show-touches",
            "--fullscreen",
            "--max-size",
            "1024",
            "-S",
            "--no-audio",
            "--stay-awake",
        ]
    );
}

#[test]
fn mirror_args_minimal() {
    let scrcpy = ScrcpyBridge::new(String::from("scrcpy"));
    let args = scrcpy.build_args(None, "2M", Some(String::new()), false, false, None, "", false);
    assert_eq!(args, vec!["-b", "2M"]);
}

#[test]
fn devices_output_parsing() {
    let out = "List of devices attached\nemulator-5554\tdevice\n192.168.1.5:5555\toffline\nabc123\tdevice\n";
    assert_eq!(parse_devices_output(out), vec!["emulator-5554", "abc123"]);
}

#[test]
fn devices_output_with_carriage_returns() {
    let out = "List of devices attached\r\nemulator-5554\tdevice\r\n";
    assert_eq!(parse_devices_output(out), vec!["emulator-5554"]);
}

#[test]
fn devices_output_empty() {
    assert_eq!(parse_devices_output(""), Vec::<String>::new());
    assert_eq!(parse_devices_output("List of devices attached\n"), Vec::<String>::new());
}

#[test]
fn connect_error_refused() {
    let msg = connect_error_report("10.0.0.2", 5555, "Connection Refused", "");
    assert!(msg.starts_with("Connection refused: Unable to connect to 10.0.0.2:5555."));
    assert!(msg.contains("• The IP address 10.0.0.2 is correct"));
    assert!(msg.contains("• Port 5555 is not blocked by firewall"));
}

#[test]
fn connect_error_no_route() {
    let msg = connect_error_report("10.0.0.2", 5555, "", "No route to host");
    assert!(msg.starts_with("No route to host: Cannot reach 10.0.0.2:5555."));
}

#[test]
fn connect_error_timeout() {
    let msg = connect_error_report("10.0.0.2", 5555, "connect timeout", "");
    assert!(msg.starts_with("Connection timeout: Unable to reach 10.0.0.2:5555."));
}

#[test]
fn connect_error_already_connected() {
    let msg = connect_error_report("10.0.0.2", 5555, "already connected to 10.0.0.2:5555", "");
    assert_eq!(msg, "Already connected to 10.0.0.2:5555");
}

#[test]
fn connect_error_other() {
    let msg = connect_error_report("10.0.0.2", 5555, "  Some ODD failure\n", "");
    assert_eq!(msg, "Failed to connect to 10.0.0.2:5555 - some odd failure");
    let msg = connect_error_report("10.0.0.2", 5555, "", "");
    assert_eq!(msg, "Failed to connect to 10.0.0.2:5555 - Unknown connection error");
}
