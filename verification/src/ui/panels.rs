//! The control panels: what each one shows is the application's business,
//! what its buttons mean is stated here.

use vstd::prelude::*;

verus! {

use crate::text::{digits_ok, digits_val, unsigned_digits};
use vstd::string::StringExecFns;

/// What the quick-actions panel asks for.
#[derive(Debug, Clone, PartialEq)]
pub enum BottomPanelAction {
    Nothing,
    RefreshDevices,
    RestartAdb,
    OpenSettings,
}

/// What the toolkit panel asks for.
#[derive(Debug, Clone, PartialEq)]
pub enum ToolkitAction {
    Nothing,
    Screenshot,
    RecordScreen,
    InstallApk,
    OpenShell,
    ShowImei,
    DisplayInfo,
    BatteryInfo,
    UninstallApp,
    DisableApp,
    Reboot,
    Shutdown,
    RebootRecovery,
    RebootBootloader,
}

/// A direction swiped on the mirrored screen.
#[derive(Debug, Clone, PartialEq)]
pub enum SwipeAction {
    Up,
    Down,
    Left,
    Right,
}

/// What the wireless panel asks for.
#[derive(Debug, Clone, PartialEq)]
pub enum WirelessAdbAction {
    Connect { ip: String, port: u16 },
    EnableTcpip { device_id: String, port: u16 },
    Pair { ip: String, port: u16, code: String },
}

/// The swipe panel.
pub struct SwipePanel {
    pub visible: bool,
}

/// The toolkit panel, with one pending-confirmation flag per destructive
/// action.
pub struct ToolkitPanel {
    pub visible: bool,
    pub show_reboot_confirm: bool,
    pub show_shutdown_confirm: bool,
    pub show_recovery_confirm: bool,
    pub show_bootloader_confirm: bool,
}

/// The quick-actions panel.
pub struct BottomPanel {
    pub visible: bool,
}

/// Which background jobs are still running, one spinner each.
pub struct ToolkitLoadingState {
    pub screenshot: bool,
    pub record_screen: bool,
    pub install_apk: bool,
    pub open_shell: bool,
    pub show_imei: bool,
    pub display_info: bool,
    pub battery_info: bool,
    pub uninstall_app: bool,
    pub disable_app: bool,
}

/// The wireless panel: the endpoints being edited and the device picked
/// for switching to TCP/IP mode.
pub struct WirelessAdbPanel {
    pub visible: bool,
    pub tcpip_ip: String,
    pub tcpip_port: String,
    pub pairing_ip: String,
    pub pairing_port: String,
    pub pairing_code: String,
    pub selected_device: Option<String>,
}

impl SwipePanel {
    pub fn new() -> (r: Self)
        ensures
            r.visible == true,
    {
        Self { visible: true }
    }
}

impl Default for SwipePanel {
    fn default() -> (r: Self)
        ensures
            r.visible == true,
    {
        Self::new()
    }
}

impl ToolkitPanel {
    pub fn new() -> (r: Self)
        ensures
            r.visible == true,
            r.show_reboot_confirm == false,
            r.show_shutdown_confirm == false,
            r.show_recovery_confirm == false,
            r.show_bootloader_confirm == false,
    {
        Self {
            visible: true,
            show_reboot_confirm: false,
            show_shutdown_confirm: false,
            show_recovery_confirm: false,
            show_bootloader_confirm: false,
        }
    }
}

impl Default for ToolkitPanel {
    fn default() -> (r: Self)
        ensures
            r.visible == true,
            r.show_reboot_confirm == false,
            r.show_shutdown_confirm == false,
            r.show_recovery_confirm == false,
            r.show_bootloader_confirm == false,
    {
        Self::new()
    }
}

impl BottomPanel {
    pub fn new() -> (r: Self)
        ensures
            r.visible == true,
    {
        Self { visible: true }
    }
}

impl Default for BottomPanel {
    fn default() -> (r: Self)
        ensures
            r.visible == true,
    {
        Self::new()
    }
}

/// Whether a port field holds a usable port number.
pub open spec fn port_ok(s: Seq<char>) -> bool {
    digits_ok(unsigned_digits(s), u16::MAX as nat)
}

/// The port a field holds.
pub open spec fn port_of(s: Seq<char>) -> nat {
    digits_val(unsigned_digits(s))
}

impl WirelessAdbPanel {
    pub fn new() -> (r: Self)
        ensures
            r.visible == true,
            r.tcpip_ip@ == Seq::<char>::empty(),
            r.tcpip_port@ == "5555"@,
            r.pairing_ip@ == Seq::<char>::empty(),
            r.pairing_port@ == "5555"@,
            r.pairing_code@ == Seq::<char>::empty(),
            r.selected_device is None,
    {
        Self {
            visible: true,
            tcpip_ip: String::new(),
            tcpip_port: String::from_str("5555"),
            pairing_ip: String::new(),
            pairing_port: String::from_str("5555"),
            pairing_code: String::new(),
            selected_device: None,
        }
    }

    /// Takes the remembered endpoints over from the configuration.
    pub fn set_config(&mut self, remembered: &crate::config::WirelessAdbConfig)
        ensures
            final(self).tcpip_ip@ == remembered.last_tcpip_ip@,
            final(self).tcpip_port@ == remembered.last_tcpip_port@,
            final(self).pairing_ip@ == remembered.last_pairing_ip@,
            final(self).pairing_port@ == remembered.last_pairing_port@,
            final(self).visible == old(self).visible,
            final(self).pairing_code == old(self).pairing_code,
            final(self).selected_device == old(self).selected_device,
    {
        self.tcpip_ip = remembered.last_tcpip_ip.clone();
        self.tcpip_port = remembered.last_tcpip_port.clone();
        self.pairing_ip = remembered.last_pairing_ip.clone();
        self.pairing_port = remembered.last_pairing_port.clone();
    }

    /// Writes the endpoints back into the configuration, to be remembered.
    pub fn save_ips(&self, remembered: &mut crate::config::WirelessAdbConfig)
        ensures
            final(remembered).last_tcpip_ip@ == self.tcpip_ip@,
            final(remembered).last_tcpip_port@ == self.tcpip_port@,
            final(remembered).last_pairing_ip@ == self.pairing_ip@,
            final(remembered).last_pairing_port@ == self.pairing_port@,
    {
        remembered.last_tcpip_ip = self.tcpip_ip.clone();
        remembered.last_tcpip_port = self.tcpip_port.clone();
        remembered.last_pairing_ip = self.pairing_ip.clone();
        remembered.last_pairing_port = self.pairing_port.clone();
    }

    /// The connect request the panel's fields describe; none while the
    /// port field does not hold a port.
    pub fn connect_action(&self) -> (r: Option<WirelessAdbAction>)
        ensures
            r is Some <==> port_ok(self.tcpip_port@),
            r matches Some(a) ==> a matches WirelessAdbAction::Connect { ip, port } && ip@
                == self.tcpip_ip@ && port as nat == port_of(self.tcpip_port@),
    {
        match crate::text::parse_u16(self.tcpip_port.as_str()) {
            Some(port) => Some(WirelessAdbAction::Connect { ip: self.tcpip_ip.clone(), port }),
            None => None,
        }
    }

    /// The switch-to-TCP/IP request: a device must be picked and the port
    /// field must hold a port.
    pub fn enable_tcpip_action(&self) -> (r: Option<WirelessAdbAction>)
        ensures
            r is Some <==> (port_ok(self.tcpip_port@) && self.selected_device is Some),
            r matches Some(a) ==> a matches WirelessAdbAction::EnableTcpip { device_id, port }
                && device_id@ == self.selected_device->0@ && port as nat == port_of(
                self.tcpip_port@,
            ),
    {
        match crate::text::parse_u16(self.tcpip_port.as_str()) {
            Some(port) => match &self.selected_device {
                Some(device_id) => Some(
                    WirelessAdbAction::EnableTcpip { device_id: device_id.clone(), port },
                ),
                None => None,
            },
            None => None,
        }
    }

    /// The pairing request; none while the pairing port field does not
    /// hold a port.
    pub fn pair_action(&self) -> (r: Option<WirelessAdbAction>)
        ensures
            r is Some <==> port_ok(self.pairing_port@),
            r matches Some(a) ==> a matches WirelessAdbAction::Pair { ip, port, code } && ip@
                == self.pairing_ip@ && port as nat == port_of(self.pairing_port@) && code@
                == self.pairing_code@,
    {
        match crate::text::parse_u16(self.pairing_port.as_str()) {
            Some(port) => Some(
                WirelessAdbAction::Pair {
                    ip: self.pairing_ip.clone(),
                    port,
                    code: self.pairing_code.clone(),
                },
            ),
            None => None,
        }
    }
}

impl Default for WirelessAdbPanel {
    fn default() -> (r: Self)
        ensures
            r.visible == true,
            r.tcpip_port@ == "5555"@,
            r.pairing_port@ == "5555"@,
    {
        Self::new()
    }
}


/// Shows or hides each panel as the configuration says, touching nothing
/// else.
pub fn apply_panel_visibility(
    cfg: &crate::config::PanelConfig,
    swipe: &mut SwipePanel,
    toolkit: &mut ToolkitPanel,
    bottom: &mut BottomPanel,
)
    ensures
        final(swipe).visible == cfg.swipe,
        final(toolkit).visible == cfg.toolkit,
        final(bottom).visible == cfg.bottom,
        final(toolkit).show_reboot_confirm == old(toolkit).show_reboot_confirm,
        final(toolkit).show_shutdown_confirm == old(toolkit).show_shutdown_confirm,
        final(toolkit).show_recovery_confirm == old(toolkit).show_recovery_confirm,
        final(toolkit).show_bootloader_confirm == old(toolkit).show_bootloader_confirm,
{
    bottom.visible = cfg.bottom;
    toolkit.visible = cfg.toolkit;
    swipe.visible = cfg.swipe;
}

} // verus!
