//! The persistent configuration.  Reading and writing the file is the
//! surrounding application's business; the shape and the defaults are
//! stated here.

use vstd::prelude::*;

verus! {

use vstd::string::StringExecFns;

/// Everything the application remembers between runs.
#[derive(Debug, Clone)]
pub struct AppConfig {
    pub adb_path: Option<String>,
    pub scrcpy_path: Option<String>,
    pub bitrate: String,
    pub orientation: Option<String>,
    pub show_touches: bool,
    pub turn_screen_off: bool,
    pub fullscreen: bool,
    pub dimension: Option<u32>,
    pub extra_args: String,
    pub force_adb_forward: bool,
    pub panels: PanelConfig,
    pub theme: String,
    pub wireless_adb: WirelessAdbConfig,
}

/// Which panels are shown.
#[derive(Debug, Clone)]
pub struct PanelConfig {
    pub swipe: bool,
    pub toolkit: bool,
    pub bottom: bool,
}

/// The endpoints last used for wireless connections.
#[derive(Debug, Clone)]
pub struct WirelessAdbConfig {
    pub last_tcpip_ip: String,
    pub last_tcpip_port: String,
    pub last_pairing_ip: String,
    pub last_pairing_port: String,
}

/// What a fresh configuration holds.
pub open spec fn is_default_config(c: AppConfig) -> bool {
    &&& c.adb_path is None
    &&& c.scrcpy_path is None
    &&& c.bitrate@ == "8M"@
    &&& c.orientation is None
    &&& c.show_touches == false
    &&& c.turn_screen_off == false
    &&& c.fullscreen == false
    &&& c.dimension is None
    &&& c.extra_args@ == Seq::<char>::empty()
    &&& c.force_adb_forward == false
    &&& c.panels.swipe == true
    &&& c.panels.toolkit == true
    &&& c.panels.bottom == true
    &&& c.theme@ == "default"@
    &&& c.wireless_adb.last_tcpip_ip@ == Seq::<char>::empty()
    &&& c.wireless_adb.last_tcpip_port@ == "5555"@
    &&& c.wireless_adb.last_pairing_ip@ == Seq::<char>::empty()
    &&& c.wireless_adb.last_pairing_port@ == "5555"@
}

impl Default for AppConfig {
    /// Mirroring goes to a fresh device at 8 megabits, every panel shown,
    /// the stock theme, and port 5555 remembered for wireless use.
    fn default() -> (r: Self)
        ensures
            is_default_config(r),
    {
        Self {
            adb_path: None,
            scrcpy_path: None,
            bitrate: String::from_str("8M"),
            orientation: None,
            show_touches: false,
            turn_screen_off: false,
            fullscreen: false,
            dimension: None,
            extra_args: String::new(),
            force_adb_forward: false,
            panels: PanelConfig { swipe: true, toolkit: true, bottom: true },
            theme: String::from_str("default"),
            wireless_adb: WirelessAdbConfig {
                last_tcpip_ip: String::new(),
                last_tcpip_port: String::from_str("5555"),
                last_pairing_ip: String::new(),
                last_pairing_port: String::from_str("5555"),
            },
        }
    }
}

} // verus!
