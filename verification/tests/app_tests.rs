use droid_view::app::{
    BackgroundState, BackgroundTaskResult, battery_report, devices_found_message,
    disable_app_args, disable_summary, display_report, format_bitrate_kilo,
    format_bitrate_mega, imei_report, install_apk_args, next_theme, parse_bitrate,
    parse_package_list, parse_swipe_size, pull_video_args, reboot_args,
    reboot_bootloader_args, reboot_recovery_args, remove_selected, screenrecord_args,
    screenshot_args, shutdown_args, swipe_coords, swipe_shell_command, uninstall_args,
    uninstall_summary,
};
use droid_view::ui::panels::SwipeAction;
use droid_view::utils::{format_file_size, sanitize_filename};

#[test]
fn background_state_starts_idle() {
    let state = BackgroundState::new();
    assert!(!state.is_processing());
    assert!(state.app_list.is_empty());
    assert!(state.imei_popup.is_none());
    assert_eq!(state.status_message, "");
}

#[test]
fn app_list_result_opens_dialog() {
    let mut state = BackgroundState::new();
    state.loading_apps = true;
    let apps = vec![(String::from("com.a"), String::from("com.a"))];
    state.apply_result(BackgroundTaskResult::AppList(apps));
    assert!(!state.loading_apps);
    assert!(state.uninstall_dialog);
    assert_eq!(state.app_list.len(), 1);
    assert_eq!(state.status_message, "App list loaded successfully");
}

#[test]
fn disable_list_result_opens_dialog() {
    let mut state = BackgroundState::new();
    state.loading_disable_apps = true;
    state.apply_result(BackgroundTaskResult::DisableAppList(Vec::new()));
    assert!(!state.loading_disable_apps);
    assert!(state.disable_dialog);
    assert!(!state.uninstall_dialog);
}

#[test]
fn report_results_fill_popups() {
    let mut state = BackgroundState::new();
    state.loading_imei = true;
    state.loading_display_info = true;
    state.loading_battery_info = true;
    assert!(state.is_processing());
    state.apply_result(BackgroundTaskResult::Imei(String::from("Serial: x")));
    assert_eq!(state.imei_popup.as_deref(), Some("Serial: x"));
    assert_eq!(state.status_message, "IMEI retrieved successfully");
    state.apply_result(BackgroundTaskResult::DisplayInfo(String::from("d")));
    assert_eq!(state.display_popup.as_deref(), Some("d"));
    state.apply_result(BackgroundTaskResult::BatteryInfo(String::from("b")));
    assert_eq!(state.battery_popup.as_deref(), Some("b"));
    assert!(!state.is_processing());
}

#[test]
fn wrapper_results_convert() {
    let r: BackgroundTaskResult = droid_view::app::ImeiResult(String::from("i")).into();
    assert!(matches!(r, BackgroundTaskResult::Imei(s) if s == "i"));
    let r: BackgroundTaskResult = droid_view::app::BatteryInfoResult(String::from("b")).into();
    assert!(matches!(r, BackgroundTaskResult::BatteryInfo(s) if s == "b"));
    let r: BackgroundTaskResult = String::from("d").into();
    assert!(matches!(r, BackgroundTaskResult::DisplayInfo(s) if s == "d"));
}

#[test]
fn messages() {
    assert_eq!(devices_found_message(2), "Found 2 device(s)");
    assert_eq!(uninstall_summary(3, 0), "Successfully uninstalled 3 app(s)");
    assert_eq!(uninstall_summary(1, 2), "Uninstalled 1 app(s), 2 failed");
    assert_eq!(disable_summary(4, 0), "Successfully disabled 4 app(s)");
    assert_eq!(disable_summary(0, 1), "Disabled 0 app(s), 1 failed");
}

#[test]
fn package_listing() {
    let out = "package:com.example.one\r\npackage:com.example.two\nnoise\n";
    let apps = parse_package_list(out);
    assert_eq!(apps.len(), 2);
    assert_eq!(apps[0].0, "com.example.one");
    assert_eq!(apps[0].1, "com.example.one");
    assert_eq!(apps[1].0, "com.example.two");
}

#[test]
fn selection_removal() {
    let list = vec![
        (String::from("com.a"), String::from("com.a")),
        (String::from("com.b"), String::from("com.b")),
        (String::from("com.c"), String::from("com.c")),
    ];
    let sel = vec![String::from("com.b")];
    let kept = remove_selected(&list, &sel);
    assert_eq!(kept.len(), 2);
    assert_eq!(kept[0].0, "com.a");
    assert_eq!(kept[1].0, "com.c");
}

#[test]
fn identity_report_sections() {
    let report = imei_report(
        Some(String::from(" abcdef0123456789 \n")),
        Some(String::from("0\n")),
        None,
        None,
        Some(String::from("12345678901234")),
        Some(String::from("SER123\n")),
    );
    assert_eq!(
        report,
        "Android ID: abcdef0123456789\nLegacy IMEI: 12345678901234\nSerial: SER123"
    );
}

#[test]
fn identity_report_drops_short_legacy() {
    let report = imei_report(None, None, None, None, Some(String::from("1234567890123")), None);
    assert!(report.starts_with("No IMEI/Device ID information available."));
}

#[test]
fn display_report_sections() {
    let report = display_report(Some(String::from("flags")), Some(String::from("size")), None);
    assert_eq!(
        report,
        "\u{1F4F1} Display Information:\nflags\n\n\u{1F4CF} Window Manager Size:\nsize\n\n"
    );
    assert_eq!(display_report(None, None, None), "Failed to retrieve display info");
}

#[test]
fn battery_report_fallback() {
    assert_eq!(battery_report(Some(String::from("level: 93"))), "level: 93");
    assert_eq!(battery_report(None), "Failed to retrieve battery info");
}

#[test]
fn toolkit_argument_vectors() {
    assert_eq!(screenshot_args("d1"), vec!["-s", "d1", "exec-out", "screencap", "-p"]);
    assert_eq!(install_apk_args("d1", "/tmp/a.apk"), vec!["-s", "d1", "install", "/tmp/a.apk"]);
    assert_eq!(reboot_args("d1"), vec!["-s", "d1", "reboot"]);
    assert_eq!(shutdown_args("d1"), vec!["-s", "d1", "shell", "reboot", "-p"]);
    assert_eq!(reboot_recovery_args("d1"), vec!["-s", "d1", "reboot", "recovery"]);
    assert_eq!(reboot_bootloader_args("d1"), vec!["-s", "d1", "reboot", "bootloader"]);
    assert_eq!(
        screenrecord_args("d1", 10, 8000),
        vec![
            "-s",
            "d1",
            "shell",
            "screenrecord",
            "/sdcard/video.mp4",
            "--time-limit",
            "10",
            "--bit-rate",
            "8000000",
        ]
    );
    assert_eq!(
        pull_video_args("d1", "/home/u/video.mp4"),
        vec!["-s", "d1", "pull", "/sdcard/video.mp4", "/home/u/video.mp4"]
    );
    assert_eq!(uninstall_args("d1", "com.a"), vec!["-s", "d1", "uninstall", "com.a"]);
    assert_eq!(
        disable_app_args("d1", "com.a"),
        vec!["-s", "d1", "shell", "pm disable-user --user 0", "com.a"]
    );
}

#[test]
fn bitrate_parsing() {
    assert_eq!(parse_bitrate("8M"), Some(8000));
    assert_eq!(parse_bitrate(" 8m "), Some(8000));
    assert_eq!(parse_bitrate("500K"), Some(500));
    assert_eq!(parse_bitrate("500k"), Some(500));
    assert_eq!(parse_bitrate("1200"), Some(1200));
    assert_eq!(parse_bitrate("bogus"), Some(8000));
    assert_eq!(parse_bitrate("junkM"), Some(8000));
    assert_eq!(parse_bitrate("8MM"), Some(8000));
    // A megabit value whose kilobit form leaves the range gives nothing.
    assert_eq!(parse_bitrate("5000000M"), None);
}

#[test]
fn bitrate_formatting() {
    assert_eq!(format_bitrate_mega(8000), "8M");
    assert_eq!(format_bitrate_mega(8499), "8M");
    assert_eq!(format_bitrate_mega(8500), "9M");
    assert_eq!(format_bitrate_kilo(750), "750K");
    assert!(droid_view::app::bitrate_is_mega("8M"));
    assert!(droid_view::app::bitrate_is_mega(" 8m"));
    assert!(!droid_view::app::bitrate_is_mega("800K"));
}

#[test]
fn swipe_geometry() {
    assert_eq!(swipe_coords(&SwipeAction::Up, 1080, 2400), (540, 1920, 540, 480));
    assert_eq!(swipe_coords(&SwipeAction::Down, 1080, 2400), (540, 480, 540, 1920));
    assert_eq!(swipe_coords(&SwipeAction::Left, 1080, 2400), (864, 1200, 216, 1200));
    assert_eq!(swipe_coords(&SwipeAction::Right, 1080, 2400), (216, 1200, 864, 1200));
}

#[test]
fn swipe_command_text() {
    assert_eq!(
        swipe_shell_command(&SwipeAction::Up, 1080, 2400),
        "input swipe 540 1920 540 480 300"
    );
}

#[test]
fn swipe_size_reading() {
    assert_eq!(parse_swipe_size("Physical size: 1080x2400"), Some((1080, 2400)));
    assert_eq!(parse_swipe_size("no size here"), None);
    assert_eq!(parse_swipe_size("odd x1080x2400 token"), None);
}

#[test]
fn theme_toggle() {
    assert_eq!(next_theme("dark"), "light");
    assert_eq!(next_theme("light"), "dark");
    assert_eq!(next_theme("default"), "dark");
}

#[test]
fn file_sizes() {
    assert_eq!(format_file_size(0), "0 B");
    assert_eq!(format_file_size(1023), "1023 B");
    assert_eq!(format_file_size(1024), "1.0 KB");
    assert_eq!(format_file_size(1536), "1.5 KB");
    assert_eq!(format_file_size(1048576), "1.0 MB");
    assert_eq!(format_file_size(5 * 1024 * 1024 * 1024), "5.0 GB");
}

#[test]
fn filename_sanitising() {
    assert_eq!(sanitize_filename("shot 2024/05.png"), "shot_2024_05.png");
    assert_eq!(sanitize_filename("a-b_c.d"), "a-b_c.d");
    // Unicode letters count as alphanumeric and stay.
    assert_eq!(sanitize_filename("héllo wörld"), "héllo_wörld");
}
