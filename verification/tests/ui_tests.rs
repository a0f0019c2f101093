use droid_view::config::{AppConfig, PanelConfig, WirelessAdbConfig};
use droid_view::device::{Device, DeviceStatus};
use droid_view::ui::device_list::DeviceList;
use droid_view::ui::panels::{
    BottomPanel, SwipePanel, ToolkitPanel, WirelessAdbAction, WirelessAdbPanel,
    apply_panel_visibility,
};
use droid_view::ui::settings::SettingsWindow;

fn device(id: &str, status: DeviceStatus) -> Device {
    Device {
        identifier: String::from(id),
        status,
        product: String::from("unknown"),
        model: String::from("unknown"),
        device: String::from("unknown"),
        transport_id: String::from("unknown"),
    }
}

#[test]
fn config_defaults() {
    let c = AppConfig::default();
    assert!(c.adb_path.is_none());
    assert!(c.scrcpy_path.is_none());
    assert_eq!(c.bitrate, "8M");
    assert!(c.orientation.is_none());
    assert!(!c.show_touches);
    assert!(!c.turn_screen_off);
    assert!(!c.fullscreen);
    assert!(c.dimension.is_none());
    assert_eq!(c.extra_args, "");
    assert!(!c.force_adb_forward);
    assert!(c.panels.swipe && c.panels.toolkit && c.panels.bottom);
    assert_eq!(c.theme, "default");
    assert_eq!(c.wireless_adb.last_tcpip_ip, "");
    assert_eq!(c.wireless_adb.last_tcpip_port, "5555");
    assert_eq!(c.wireless_adb.last_pairing_ip, "");
    assert_eq!(c.wireless_adb.last_pairing_port, "5555");
}

#[test]
fn device_list_auto_selects_first_usable() {
    let mut list = DeviceList::new();
    assert!(list.selected_device().is_none());
    list.update_devices(vec![
        device("a", DeviceStatus::Offline),
        device("b", DeviceStatus::Device),
        device("c", DeviceStatus::Device),
    ]);
    assert_eq!(list.selected_device().unwrap().identifier, "b");
}

#[test]
fn device_list_keeps_selection_in_bounds() {
    let mut list = DeviceList::new();
    list.update_devices(vec![
        device("a", DeviceStatus::Device),
        device("b", DeviceStatus::Device),
    ]);
    list.select(1);
    assert_eq!(list.selected_device().unwrap().identifier, "b");
    list.update_devices(vec![device("a", DeviceStatus::Device)]);
    assert!(list.selected_device().is_none());
    list.update_devices(Vec::new());
    assert!(list.selected_device().is_none());
}

#[test]
fn device_list_keeps_valid_selection() {
    let mut list = DeviceList::new();
    list.update_devices(vec![
        device("a", DeviceStatus::Device),
        device("b", DeviceStatus::Device),
    ]);
    list.select(1);
    list.update_devices(vec![
        device("x", DeviceStatus::Offline),
        device("y", DeviceStatus::Device),
    ]);
    assert_eq!(list.selected_device().unwrap().identifier, "y");
}

#[test]
fn panels_start_visible() {
    assert!(SwipePanel::new().visible);
    assert!(BottomPanel::new().visible);
    let t = ToolkitPanel::new();
    assert!(t.visible);
    assert!(!t.show_reboot_confirm && !t.show_shutdown_confirm);
    assert!(!t.show_recovery_confirm && !t.show_bootloader_confirm);
}

#[test]
fn panel_visibility_follows_config() {
    let mut swipe = SwipePanel::new();
    let mut toolkit = ToolkitPanel::new();
    let mut bottom = BottomPanel::new();
    let cfg = PanelConfig { swipe: false, toolkit: true, bottom: false };
    apply_panel_visibility(&cfg, &mut swipe, &mut toolkit, &mut bottom);
    assert!(!swipe.visible);
    assert!(toolkit.visible);
    assert!(!bottom.visible);
}

#[test]
fn wireless_panel_remembers_endpoints() {
    let mut panel = WirelessAdbPanel::new();
    assert_eq!(panel.tcpip_port, "5555");
    let remembered = WirelessAdbConfig {
        last_tcpip_ip: String::from("10.0.0.9"),
        last_tcpip_port: String::from("4444"),
        last_pairing_ip: String::from("10.0.0.8"),
        last_pairing_port: String::from("33333"),
    };
    panel.set_config(&remembered);
    assert_eq!(panel.tcpip_ip, "10.0.0.9");
    assert_eq!(panel.tcpip_port, "4444");
    let mut back = WirelessAdbConfig {
        last_tcpip_ip: String::new(),
        last_tcpip_port: String::new(),
        last_pairing_ip: String::new(),
        last_pairing_port: String::new(),
    };
    panel.save_ips(&mut back);
    assert_eq!(back.last_pairing_ip, "10.0.0.8");
    assert_eq!(back.last_pairing_port, "33333");
}

#[test]
fn wireless_panel_actions() {
    let mut panel = WirelessAdbPanel::new();
    panel.tcpip_ip = String::from("10.0.0.9");
    panel.tcpip_port = String::from("5555");
    match panel.connect_action() {
        Some(WirelessAdbAction::Connect { ip, port }) => {
            assert_eq!(ip, "10.0.0.9");
            assert_eq!(port, 5555);
        }
        _ => panic!("expected a connect action"),
    }
    panel.tcpip_port = String::from("70000");
    assert!(panel.connect_action().is_none());
    panel.tcpip_port = String::from("5555");
    assert!(panel.enable_tcpip_action().is_none());
    panel.selected_device = Some(String::from("abc"));
    match panel.enable_tcpip_action() {
        Some(WirelessAdbAction::EnableTcpip { device_id, port }) => {
            assert_eq!(device_id, "abc");
            assert_eq!(port, 5555);
        }
        _ => panic!("expected an enable action"),
    }
    panel.pairing_ip = String::from("10.0.0.8");
    panel.pairing_port = String::from("37099");
    panel.pairing_code = String::from("123456");
    match panel.pair_action() {
        Some(WirelessAdbAction::Pair { ip, port, code }) => {
            assert_eq!(ip, "10.0.0.8");
            assert_eq!(port, 37099);
            assert_eq!(code, "123456");
        }
        _ => panic!("expected a pair action"),
    }
    panel.pairing_port = String::from("not a port");
    assert!(panel.pair_action().is_none());
}

#[test]
fn settings_window_cycle() {
    let mut w = SettingsWindow::new();
    assert!(!w.is_open());
    assert!(!w.take_just_saved());
    w.open();
    assert!(w.is_open());
    w.close();
    assert!(!w.is_open());
    assert!(!w.take_just_saved());
    w.open();
    w.mark_saved();
    assert!(!w.is_open());
    assert!(w.take_just_saved());
    assert!(!w.take_just_saved());
}
