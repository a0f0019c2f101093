//! The application's own state and the work the toolkit buttons set off:
//! what each background result does to the panels, what each device
//! command's argument vector holds, and how the tools' answers are read.

use vstd::prelude::*;

verus! {

use crate::text::{
    all_digits,
    begins_with_seq,
    chars_of,
    contains_seq,
    contains_str,
    dec_digits,
    digits_ok,
    digits_val,
    lines_of,
    remove_pat,
    signed_digits,
    signed_val,
    split_on,
    split_parts,
    split_whitespace,
    str_eq,
    string_of_chars,
    to_upper,
    trim_chars,
    trim_of,
    trim_str,
    u32_to_string,
    u64_to_string,
    unsigned_digits,
    upper_of,
    views_of,
    without_pat,
    ws_tokens,
};
use crate::ui::panels::SwipeAction;
use vstd::string::StringExecFns;

// ---------------------------------------------------------------------------
// Background task results

/// A fetched list of third-party packages.
pub struct AppListResult(pub Vec<(String, String)>);

/// A fetched list of enabled packages.
pub struct DisableAppListResult(pub Vec<(String, String)>);

/// A fetched device-identity report.
pub struct ImeiResult(pub String);

/// A fetched battery report.
pub struct BatteryInfoResult(pub String);

/// What a finished background job hands back to the panels.
pub enum BackgroundTaskResult {
    AppList(Vec<(String, String)>),
    DisableAppList(Vec<(String, String)>),
    Imei(String),
    DisplayInfo(String),
    BatteryInfo(String),
}

impl From<AppListResult> for BackgroundTaskResult {
    fn from(result: AppListResult) -> (r: Self) {
        BackgroundTaskResult::AppList(result.0)
    }
}

impl vstd::std_specs::convert::FromSpecImpl<AppListResult> for BackgroundTaskResult {
    open spec fn obeys_from_spec() -> bool {
        true
    }

    open spec fn from_spec(t: AppListResult) -> Self {
        BackgroundTaskResult::AppList(t.0)
    }
}

impl From<DisableAppListResult> for BackgroundTaskResult {
    fn from(result: DisableAppListResult) -> (r: Self) {
        BackgroundTaskResult::DisableAppList(result.0)
    }
}

impl vstd::std_specs::convert::FromSpecImpl<DisableAppListResult> for BackgroundTaskResult {
    open spec fn obeys_from_spec() -> bool {
        true
    }

    open spec fn from_spec(t: DisableAppListResult) -> Self {
        BackgroundTaskResult::DisableAppList(t.0)
    }
}

impl From<ImeiResult> for BackgroundTaskResult {
    fn from(result: ImeiResult) -> (r: Self) {
        BackgroundTaskResult::Imei(result.0)
    }
}

impl vstd::std_specs::convert::FromSpecImpl<ImeiResult> for BackgroundTaskResult {
    open spec fn obeys_from_spec() -> bool {
        true
    }

    open spec fn from_spec(t: ImeiResult) -> Self {
        BackgroundTaskResult::Imei(t.0)
    }
}

impl From<BatteryInfoResult> for BackgroundTaskResult {
    fn from(result: BatteryInfoResult) -> (r: Self) {
        BackgroundTaskResult::BatteryInfo(result.0)
    }
}

impl vstd::std_specs::convert::FromSpecImpl<BatteryInfoResult> for BackgroundTaskResult {
    open spec fn obeys_from_spec() -> bool {
        true
    }

    open spec fn from_spec(t: BatteryInfoResult) -> Self {
        BackgroundTaskResult::BatteryInfo(t.0)
    }
}

impl From<Vec<(String, String)>> for BackgroundTaskResult {
    fn from(apps: Vec<(String, String)>) -> (r: Self) {
        BackgroundTaskResult::AppList(apps)
    }
}

impl vstd::std_specs::convert::FromSpecImpl<Vec<(String, String)>> for BackgroundTaskResult {
    open spec fn obeys_from_spec() -> bool {
        true
    }

    open spec fn from_spec(t: Vec<(String, String)>) -> Self {
        BackgroundTaskResult::AppList(t)
    }
}

impl From<String> for BackgroundTaskResult {
    fn from(info: String) -> (r: Self) {
        BackgroundTaskResult::DisplayInfo(info)
    }
}

impl vstd::std_specs::convert::FromSpecImpl<String> for BackgroundTaskResult {
    open spec fn obeys_from_spec() -> bool {
        true
    }

    open spec fn from_spec(t: String) -> Self {
        BackgroundTaskResult::DisplayInfo(t)
    }
}

// ---------------------------------------------------------------------------
// The state the background jobs feed

/// The panel state the background jobs write into: one loading flag per
/// job, the fetched lists and reports, which dialogs are open, and the
/// status line.
pub struct BackgroundState {
    pub loading_apps: bool,
    pub loading_disable_apps: bool,
    pub loading_imei: bool,
    pub loading_display_info: bool,
    pub loading_battery_info: bool,
    pub app_list: Vec<(String, String)>,
    pub disable_app_list: Vec<(String, String)>,
    pub imei_popup: Option<String>,
    pub display_popup: Option<String>,
    pub battery_popup: Option<String>,
    pub uninstall_dialog: bool,
    pub disable_dialog: bool,
    pub status_message: String,
}

impl BackgroundState {
    pub fn new() -> (r: Self)
        ensures
            !r.loading_apps,
            !r.loading_disable_apps,
            !r.loading_imei,
            !r.loading_display_info,
            !r.loading_battery_info,
            r.app_list@.len() == 0,
            r.disable_app_list@.len() == 0,
            r.imei_popup is None,
            r.display_popup is None,
            r.battery_popup is None,
            !r.uninstall_dialog,
            !r.disable_dialog,
            r.status_message@ == Seq::<char>::empty(),
    {
        Self {
            loading_apps: false,
            loading_disable_apps: false,
            loading_imei: false,
            loading_display_info: false,
            loading_battery_info: false,
            app_list: Vec::new(),
            disable_app_list: Vec::new(),
            imei_popup: None,
            display_popup: None,
            battery_popup: None,
            uninstall_dialog: false,
            disable_dialog: false,
            status_message: String::new(),
        }
    }

    /// Whether any background job is still running.
    pub fn is_processing(&self) -> (r: bool)
        ensures
            r == (self.loading_apps || self.loading_disable_apps || self.loading_imei
                || self.loading_display_info || self.loading_battery_info),
    {
        self.loading_apps || self.loading_disable_apps || self.loading_imei
            || self.loading_display_info || self.loading_battery_info
    }

    /// Takes one finished job's result in: its loading flag falls, its
    /// list or popup fills, its dialog opens, and the status line reports
    /// it; everything else stands.
    pub fn apply_result(&mut self, result: BackgroundTaskResult)
        ensures
            match result {
                BackgroundTaskResult::AppList(apps) => {
                    &&& !final(self).loading_apps
                    &&& final(self).app_list == apps
                    &&& final(self).uninstall_dialog
                    &&& final(self).status_message@ == "App list loaded successfully"@
                    &&& final(self).loading_disable_apps == old(self).loading_disable_apps
                    &&& final(self).loading_imei == old(self).loading_imei
                    &&& final(self).loading_display_info == old(self).loading_display_info
                    &&& final(self).loading_battery_info == old(self).loading_battery_info
                    &&& final(self).disable_app_list == old(self).disable_app_list
                    &&& final(self).imei_popup == old(self).imei_popup
                    &&& final(self).display_popup == old(self).display_popup
                    &&& final(self).battery_popup == old(self).battery_popup
                    &&& final(self).disable_dialog == old(self).disable_dialog
                },
                BackgroundTaskResult::DisableAppList(apps) => {
                    &&& !final(self).loading_disable_apps
                    &&& final(self).disable_app_list == apps
                    &&& final(self).disable_dialog
                    &&& final(self).status_message@ == "App list loaded successfully"@
                    &&& final(self).loading_apps == old(self).loading_apps
                    &&& final(self).loading_imei == old(self).loading_imei
                    &&& final(self).loading_display_info == old(self).loading_display_info
                    &&& final(self).loading_battery_info == old(self).loading_battery_info
                    &&& final(self).app_list == old(self).app_list
                    &&& final(self).imei_popup == old(self).imei_popup
                    &&& final(self).display_popup == old(self).display_popup
                    &&& final(self).battery_popup == old(self).battery_popup
                    &&& final(self).uninstall_dialog == old(self).uninstall_dialog
                },
                BackgroundTaskResult::Imei(imei) => {
                    &&& !final(self).loading_imei
                    &&& final(self).imei_popup matches Some(p) && p == imei
                    &&& final(self).status_message@ == "IMEI retrieved successfully"@
                    &&& final(self).loading_apps == old(self).loading_apps
                    &&& final(self).loading_disable_apps == old(self).loading_disable_apps
                    &&& final(self).loading_display_info == old(self).loading_display_info
                    &&& final(self).loading_battery_info == old(self).loading_battery_info
                    &&& final(self).app_list == old(self).app_list
                    &&& final(self).disable_app_list == old(self).disable_app_list
                    &&& final(self).display_popup == old(self).display_popup
                    &&& final(self).battery_popup == old(self).battery_popup
                    &&& final(self).uninstall_dialog == old(self).uninstall_dialog
                    &&& final(self).disable_dialog == old(self).disable_dialog
                },
                BackgroundTaskResult::DisplayInfo(info) => {
                    &&& !final(self).loading_display_info
                    &&& final(self).display_popup matches Some(p) && p == info
                    &&& final(self).status_message@ == "Display info retrieved successfully"@
                    &&& final(self).loading_apps == old(self).loading_apps
                    &&& final(self).loading_disable_apps == old(self).loading_disable_apps
                    &&& final(self).loading_imei == old(self).loading_imei
                    &&& final(self).loading_battery_info == old(self).loading_battery_info
                    &&& final(self).app_list == old(self).app_list
                    &&& final(self).disable_app_list == old(self).disable_app_list
                    &&& final(self).imei_popup == old(self).imei_popup
                    &&& final(self).battery_popup == old(self).battery_popup
                    &&& final(self).uninstall_dialog == old(self).uninstall_dialog
                    &&& final(self).disable_dialog == old(self).disable_dialog
                },
                BackgroundTaskResult::BatteryInfo(info) => {
                    &&& !final(self).loading_battery_info
                    &&& final(self).battery_popup matches Some(p) && p == info
                    &&& final(self).status_message@ == "Battery info retrieved successfully"@
                    &&& final(self).loading_apps == old(self).loading_apps
                    &&& final(self).loading_disable_apps == old(self).loading_disable_apps
                    &&& final(self).loading_imei == old(self).loading_imei
                    &&& final(self).loading_display_info == old(self).loading_display_info
                    &&& final(self).app_list == old(self).app_list
                    &&& final(self).disable_app_list == old(self).disable_app_list
                    &&& final(self).imei_popup == old(self).imei_popup
                    &&& final(self).display_popup == old(self).display_popup
                    &&& final(self).uninstall_dialog == old(self).uninstall_dialog
                    &&& final(self).disable_dialog == old(self).disable_dialog
                },
            },
    {
        match result {
            BackgroundTaskResult::AppList(apps) => {
                self.loading_apps = false;
                self.app_list = apps;
                self.uninstall_dialog = true;
                self.status_message = String::from_str("App list loaded successfully");
            },
            BackgroundTaskResult::DisableAppList(apps) => {
                self.loading_disable_apps = false;
                self.disable_app_list = apps;
                self.disable_dialog = true;
                self.status_message = String::from_str("App list loaded successfully");
            },
            BackgroundTaskResult::Imei(imei) => {
                self.loading_imei = false;
                self.imei_popup = Some(imei);
                self.status_message = String::from_str("IMEI retrieved successfully");
            },
            BackgroundTaskResult::DisplayInfo(info) => {
                self.loading_display_info = false;
                self.display_popup = Some(info);
                self.status_message = String::from_str("Display info retrieved successfully");
            },
            BackgroundTaskResult::BatteryInfo(info) => {
                self.loading_battery_info = false;
                self.battery_popup = Some(info);
                self.status_message = String::from_str("Battery info retrieved successfully");
            },
        }
    }
}

// ---------------------------------------------------------------------------
// Status messages

/// `Found N device(s)`.
pub fn devices_found_message(n: usize) -> (r: String)
    ensures
        r@ == "Found "@ + dec_digits(n as nat) + " device(s)"@,
{
    let mut s = String::from_str("Found ");
    let d = u64_to_string(n as u64);
    s.append(d.as_str());
    s.append(" device(s)");
    s
}

/// The summary after uninstalling: a plain count when nothing failed, the
/// failure count otherwise.
pub fn uninstall_summary(success: usize, failed: usize) -> (r: String)
    ensures
        failed == 0 ==> r@ == "Successfully uninstalled "@ + dec_digits(success as nat)
            + " app(s)"@,
        failed != 0 ==> r@ == "Uninstalled "@ + dec_digits(success as nat) + " app(s), "@
            + dec_digits(failed as nat) + " failed"@,
{
    let sd = u64_to_string(success as u64);
    if failed == 0 {
        let mut s = String::from_str("Successfully uninstalled ");
        s.append(sd.as_str());
        s.append(" app(s)");
        s
    } else {
        let fd = u64_to_string(failed as u64);
        let mut s = String::from_str("Uninstalled ");
        s.append(sd.as_str());
        s.append(" app(s), ");
        s.append(fd.as_str());
        s.append(" failed");
        s
    }
}

/// The summary after disabling, in the same two forms.
pub fn disable_summary(success: usize, failed: usize) -> (r: String)
    ensures
        failed == 0 ==> r@ == "Successfully disabled "@ + dec_digits(success as nat)
            + " app(s)"@,
        failed != 0 ==> r@ == "Disabled "@ + dec_digits(success as nat) + " app(s), "@
            + dec_digits(failed as nat) + " failed"@,
{
    let sd = u64_to_string(success as u64);
    if failed == 0 {
        let mut s = String::from_str("Successfully disabled ");
        s.append(sd.as_str());
        s.append(" app(s)");
        s
    } else {
        let fd = u64_to_string(failed as u64);
        let mut s = String::from_str("Disabled ");
        s.append(sd.as_str());
        s.append(" app(s), ");
        s.append(fd.as_str());
        s.append(" failed");
        s
    }
}

// ---------------------------------------------------------------------------
// Selections over the package lists

/// Whether `name` is among the selected names.
pub open spec fn sel_contains(sel: Seq<Seq<char>>, name: Seq<char>) -> bool {
    exists|i: int| 0 <= i < sel.len() && sel[i] == name
}

/// Whether `name` is among the selected names.
pub fn selection_contains(sel: &Vec<String>, name: &str) -> (r: bool)
    ensures
        r == sel_contains(views_of(sel@), name@),
{
    let mut i: usize = 0;
    while i < sel.len()
        invariant
            0 <= i <= sel@.len(),
            forall|m: int| 0 <= m < i ==> views_of(sel@)[m] != name@,
        decreases sel@.len() - i,
    {
        proof {
            assert(views_of(sel@)[i as int] == sel@[i as int]@);
        }
        if str_eq(sel[i].as_str(), name) {
            return true;
        }
        i = i + 1;
    }
    false
}

/// The entries whose package name is not selected, in order.
pub open spec fn retained(
    list: Seq<(String, String)>,
    sel: Seq<Seq<char>>,
) -> Seq<(String, String)>
    decreases list.len(),
{
    if list.len() == 0 {
        seq![]
    } else {
        (if !sel_contains(sel, list[0].0@) {
            seq![list[0]]
        } else {
            seq![]
        }) + retained(list.drop_first(), sel)
    }
}

/// The package list with the selected entries removed.
pub fn remove_selected(list: &Vec<(String, String)>, sel: &Vec<String>) -> (r: Vec<
    (String, String),
>)
    ensures
        r@ == retained(list@, views_of(sel@)),
{
    let ghost sv = views_of(sel@);
    let mut r: Vec<(String, String)> = Vec::new();
    let mut i: usize = 0;
    proof {
        assert(list@.skip(0) =~= list@);
        assert(r@ + retained(list@, sv) =~= retained(list@, sv));
    }
    while i < list.len()
        invariant
            0 <= i <= list@.len(),
            sv == views_of(sel@),
            r@ + retained(list@.skip(i as int), sv) == retained(list@, sv),
        decreases list@.len() - i,
    {
        let ghost rest = list@.skip(i as int);
        proof {
            assert(rest[0] == list@[i as int]);
            assert(rest.drop_first() =~= list@.skip(i as int + 1));
        }
        if !selection_contains(sel, list[i].0.as_str()) {
            let entry = (list[i].0.clone(), list[i].1.clone());
            proof {
                assert(entry == list@[i as int]);
            }
            r.push(entry);
        }
        proof {
            assert(r@ + retained(list@.skip(i as int + 1), sv) =~= retained(list@, sv));
        }
        i = i + 1;
    }
    proof {
        assert(list@.skip(list@.len() as int) =~= Seq::<(String, String)>::empty());
        assert(r@ =~= retained(list@, sv));
    }
    r
}

// ---------------------------------------------------------------------------
// Themes

/// The theme the theme button switches to: dark everywhere except from
/// dark itself, which goes back to light.
pub fn next_theme(current: &str) -> (r: String)
    ensures
        current@ == "dark"@ ==> r@ == "light"@,
        current@ != "dark"@ ==> r@ == "dark"@,
{
    if str_eq(current, "dark") {
        String::from_str("light")
    } else {
        String::from_str("dark")
    }
}


// ---------------------------------------------------------------------------
// Package listings

/// The package name one listing line contributes: the line must carry the
/// `package:` tag, which is removed wherever it occurs, and the rest is
/// trimmed.
pub open spec fn package_lines(ls: Seq<Seq<char>>) -> Seq<Seq<char>>
    decreases ls.len(),
{
    if ls.len() == 0 {
        seq![]
    } else {
        (if begins_with_seq(ls[0], "package:"@) {
            seq![trim_of(without_pat(ls[0], "package:"@))]
        } else {
            seq![]
        }) + package_lines(ls.drop_first())
    }
}

/// The package names a `pm list packages` output names.
pub open spec fn packages_of(s: Seq<char>) -> Seq<Seq<char>> {
    package_lines(lines_of(s))
}

/// The packages listed, each entry carrying the name twice: once as the
/// package name and once as the shown name.
pub fn parse_package_list(output: &str) -> (r: Vec<(String, String)>)
    ensures
        r@.len() == packages_of(output@).len(),
        forall|k: int|
            0 <= k < r@.len() ==> (#[trigger] r@[k]).0@ == packages_of(output@)[k] && r@[k].1@
                == packages_of(output@)[k],
{
    let ls = crate::text::split_lines(output);
    let ghost lviews = views_of(ls@);
    let ghost pkgs = packages_of(output@);
    let tag = chars_of("package:");
    let mut r: Vec<(String, String)> = Vec::new();
    let mut i: usize = 0;
    proof {
        reveal_strlit("package:");
        assert(lviews.skip(0) =~= lviews);
    }
    while i < ls.len()
        invariant
            0 <= i <= ls@.len(),
            lviews == views_of(ls@),
            lviews == lines_of(output@),
            pkgs == packages_of(output@),
            tag@ == "package:"@,
            r@.len() <= pkgs.len(),
            package_lines(lviews.skip(i as int)) == pkgs.skip(r@.len() as int),
            forall|k: int|
                0 <= k < r@.len() ==> (#[trigger] r@[k]).0@ == pkgs[k] && r@[k].1@ == pkgs[k],
        decreases ls@.len() - i,
    {
        let ghost rest = lviews.skip(i as int);
        let ghost rlen = r@.len() as int;
        proof {
            assert(rest[0] == lviews[i as int]);
            assert(lviews[i as int] == ls@[i as int]@);
            assert(rest.drop_first() =~= lviews.skip(i as int + 1));
        }
        let lv = chars_of(ls[i].as_str());
        if crate::text::begins_with(&lv, &tag) {
            proof {
                reveal_strlit("package:");
                assert(begins_with_seq(rest[0], "package:"@));
                assert(package_lines(rest).len() >= 1);
                assert(pkgs.skip(rlen).len() >= 1);
                assert(pkgs.skip(rlen)[0] == pkgs[rlen]);
                assert(pkgs.skip(rlen).drop_first() =~= pkgs.skip(rlen + 1));
                assert(package_lines(lviews.skip(i as int + 1)) =~= pkgs.skip(rlen + 1));
            }
            let stripped = remove_pat(&lv, &tag);
            let trimmed = trim_chars(&stripped);
            let name = string_of_chars(&trimmed);
            let name2 = name.clone();
            r.push((name, name2));
        } else {
            proof {
                assert(package_lines(lviews.skip(i as int + 1)) =~= pkgs.skip(rlen));
            }
        }
        i = i + 1;
    }
    proof {
        assert(lviews.skip(ls@.len() as int) =~= Seq::<Seq<char>>::empty());
        assert(pkgs.skip(r@.len() as int).len() == 0);
    }
    r
}

// ---------------------------------------------------------------------------
// Reports assembled from shell output

/// A labelled line for a non-blank value, or nothing.
pub open spec fn plain_section(label: Seq<char>, out: Option<Seq<char>>) -> Seq<char> {
    match out {
        Some(s) => {
            let t = trim_of(s);
            if t.len() > 0 {
                label + t + "\n"@
            } else {
                Seq::empty()
            }
        },
        None => Seq::empty(),
    }
}

/// A labelled line for a value that is non-blank and not the literal `0`.
pub open spec fn nonzero_section(label: Seq<char>, out: Option<Seq<char>>) -> Seq<char> {
    match out {
        Some(s) => {
            let t = trim_of(s);
            if t.len() > 0 && t != "0"@ {
                label + t + "\n"@
            } else {
                Seq::empty()
            }
        },
        None => Seq::empty(),
    }
}

/// A line for the legacy identity probe, kept only at fourteen characters
/// or more.
pub open spec fn legacy_section(out: Option<Seq<char>>) -> Seq<char> {
    match out {
        Some(s) => {
            let t = trim_of(s);
            if t.len() > 0 && t.len() >= 14 {
                "Legacy IMEI: "@ + t + "\n"@
            } else {
                Seq::empty()
            }
        },
        None => Seq::empty(),
    }
}

/// The identity report assembled from the six probes, trimmed; the advice
/// text when every probe came back empty.
pub open spec fn imei_report_text(
    android_id: Option<Seq<char>>,
    imei: Option<Seq<char>>,
    imei1: Option<Seq<char>>,
    imei2: Option<Seq<char>>,
    legacy: Option<Seq<char>>,
    serial: Option<Seq<char>>,
) -> Seq<char> {
    let body = plain_section("Android ID: "@, android_id) + nonzero_section("IMEI: "@, imei)
        + nonzero_section("IMEI1: "@, imei1) + nonzero_section("IMEI2: "@, imei2)
        + legacy_section(legacy) + plain_section("Serial: "@, serial);
    if body.len() > 0 {
        trim_of(body)
    } else {
        "No IMEI/Device ID information available. This may be due to:\n• Android security restrictions (Android 10+)\n• Missing READ_PHONE_STATE permission\n• Device not supporting IMEI retrieval"@
    }
}

/// One labelled report line, appended when wanted.
fn push_plain_section(body: &mut String, label: &str, out: &Option<String>)
    ensures
        final(body)@ == old(body)@ + plain_section(label@, crate::bridge::opt_string_view(*out)),
{
    if let Some(s) = out {
        let t = trim_str(s.as_str());
        if !t.as_str().is_empty() {
            body.append(label);
            body.append(t.as_str());
            body.append("\n");
            return;
        }
    }
    proof {
        assert(old(body)@ + Seq::<char>::empty() =~= old(body)@);
    }
}

/// One labelled report line for a non-`0` value, appended when wanted.
fn push_nonzero_section(body: &mut String, label: &str, out: &Option<String>)
    ensures
        final(body)@ == old(body)@ + nonzero_section(
            label@,
            crate::bridge::opt_string_view(*out),
        ),
{
    if let Some(s) = out {
        let t = trim_str(s.as_str());
        if !t.as_str().is_empty() && !str_eq(t.as_str(), "0") {
            body.append(label);
            body.append(t.as_str());
            body.append("\n");
            return;
        }
    }
    proof {
        assert(old(body)@ + Seq::<char>::empty() =~= old(body)@);
    }
}

/// The legacy-probe report line, appended when wanted.
fn push_legacy_section(body: &mut String, out: &Option<String>)
    ensures
        final(body)@ == old(body)@ + legacy_section(crate::bridge::opt_string_view(*out)),
{
    if let Some(s) = out {
        let t = trim_str(s.as_str());
        let tv = chars_of(t.as_str());
        if tv.len() > 0 && tv.len() >= 14 {
            body.append("Legacy IMEI: ");
            body.append(t.as_str());
            body.append("\n");
            return;
        }
    }
    proof {
        assert(old(body)@ + Seq::<char>::empty() =~= old(body)@);
    }
}

/// The identity report, from the captured output of the six probes.
pub fn imei_report(
    android_id: Option<String>,
    imei: Option<String>,
    imei1: Option<String>,
    imei2: Option<String>,
    legacy: Option<String>,
    serial: Option<String>,
) -> (r: String)
    ensures
        r@ == imei_report_text(
            crate::bridge::opt_string_view(android_id),
            crate::bridge::opt_string_view(imei),
            crate::bridge::opt_string_view(imei1),
            crate::bridge::opt_string_view(imei2),
            crate::bridge::opt_string_view(legacy),
            crate::bridge::opt_string_view(serial),
        ),
{
    let mut body = String::new();
    push_plain_section(&mut body, "Android ID: ", &android_id);
    push_nonzero_section(&mut body, "IMEI: ", &imei);
    push_nonzero_section(&mut body, "IMEI1: ", &imei1);
    push_nonzero_section(&mut body, "IMEI2: ", &imei2);
    push_legacy_section(&mut body, &legacy);
    push_plain_section(&mut body, "Serial: ", &serial);
    proof {
        assert(body@ =~= plain_section("Android ID: "@, crate::bridge::opt_string_view(android_id))
            + nonzero_section("IMEI: "@, crate::bridge::opt_string_view(imei))
            + nonzero_section("IMEI1: "@, crate::bridge::opt_string_view(imei1))
            + nonzero_section("IMEI2: "@, crate::bridge::opt_string_view(imei2))
            + legacy_section(crate::bridge::opt_string_view(legacy))
            + plain_section("Serial: "@, crate::bridge::opt_string_view(serial)));
    }
    if !body.as_str().is_empty() {
        trim_str(body.as_str())
    } else {
        String::from_str(
            "No IMEI/Device ID information available. This may be due to:\n• Android security restrictions (Android 10+)\n• Missing READ_PHONE_STATE permission\n• Device not supporting IMEI retrieval",
        )
    }
}

/// A display-report section: a header, the captured output, a blank line.
pub open spec fn display_section(
    header: Seq<char>,
    out: Option<Seq<char>>,
    blank_after: bool,
) -> Seq<char> {
    match out {
        Some(s) => if blank_after {
            header + s + "\n\n"@
        } else {
            header + s
        },
        None => Seq::empty(),
    }
}

/// The display report: the three probes' output under their headers, or a
/// failure note when none answered.
pub open spec fn display_report_text(
    dumpsys: Option<Seq<char>>,
    wm_size: Option<Seq<char>>,
    wm_density: Option<Seq<char>>,
) -> Seq<char> {
    let body = display_section("📱 Display Information:\n"@, dumpsys, true) + display_section(
        "📏 Window Manager Size:\n"@,
        wm_size,
        true,
    ) + display_section("📊 Window Manager Density:\n"@, wm_density, false);
    if body.len() > 0 {
        body
    } else {
        "Failed to retrieve display info"@
    }
}

/// The display report, from the captured output of the three probes.
pub fn display_report(
    dumpsys: Option<String>,
    wm_size: Option<String>,
    wm_density: Option<String>,
) -> (r: String)
    ensures
        r@ == display_report_text(
            crate::bridge::opt_string_view(dumpsys),
            crate::bridge::opt_string_view(wm_size),
            crate::bridge::opt_string_view(wm_density),
        ),
{
    let mut body = String::new();
    if let Some(s) = &dumpsys {
        body.append("📱 Display Information:\n");
        body.append(s.as_str());
        body.append("\n\n");
    }
    proof {
        assert(body@ =~= display_section(
            "📱 Display Information:\n"@,
            crate::bridge::opt_string_view(dumpsys),
            true,
        ));
    }
    if let Some(s) = &wm_size {
        body.append("📏 Window Manager Size:\n");
        body.append(s.as_str());
        body.append("\n\n");
    }
    if let Some(s) = &wm_density {
        body.append("📊 Window Manager Density:\n");
        body.append(s.as_str());
    }
    if !body.as_str().is_empty() {
        body
    } else {
        String::from_str("Failed to retrieve display info")
    }
}

/// The battery report: the probe's output as it stands, or a failure note.
pub fn battery_report(out: Option<String>) -> (r: String)
    ensures
        match out {
            Some(s) => r@ == s@,
            None => r@ == "Failed to retrieve battery info"@,
        },
{
    match out {
        Some(s) => s,
        None => String::from_str("Failed to retrieve battery info"),
    }
}

// ---------------------------------------------------------------------------
// Toolkit command argument vectors

/// `["-s", id]`, the common head of every per-device command.
fn device_command(device_id: &str) -> (r: Vec<String>)
    ensures
        r@.len() == 2,
        r@[0]@ == "-s"@,
        r@[1]@ == device_id@,
{
    let mut args: Vec<String> = Vec::new();
    args.push(String::from_str("-s"));
    args.push(String::from_str(device_id));
    args
}

/// Arguments that capture the screen to standard output.
pub fn screenshot_args(device_id: &str) -> (r: Vec<String>)
    ensures
        views_of(r@) == seq!["-s"@, device_id@, "exec-out"@, "screencap"@, "-p"@],
{
    let mut args = device_command(device_id);
    args.push(String::from_str("exec-out"));
    args.push(String::from_str("screencap"));
    args.push(String::from_str("-p"));
    proof {
        assert(views_of(args@) =~= seq!["-s"@, device_id@, "exec-out"@, "screencap"@, "-p"@]);
    }
    args
}

/// Arguments that install a package file.
pub fn install_apk_args(device_id: &str, apk_path: &str) -> (r: Vec<String>)
    ensures
        views_of(r@) == seq!["-s"@, device_id@, "install"@, apk_path@],
{
    let mut args = device_command(device_id);
    args.push(String::from_str("install"));
    args.push(String::from_str(apk_path));
    proof {
        assert(views_of(args@) =~= seq!["-s"@, device_id@, "install"@, apk_path@]);
    }
    args
}

/// Arguments that reboot the device.
pub fn reboot_args(device_id: &str) -> (r: Vec<String>)
    ensures
        views_of(r@) == seq!["-s"@, device_id@, "reboot"@],
{
    let mut args = device_command(device_id);
    args.push(String::from_str("reboot"));
    proof {
        assert(views_of(args@) =~= seq!["-s"@, device_id@, "reboot"@]);
    }
    args
}

/// Arguments that power the device off.
pub fn shutdown_args(device_id: &str) -> (r: Vec<String>)
    ensures
        views_of(r@) == seq!["-s"@, device_id@, "shell"@, "reboot"@, "-p"@],
{
    let mut args = device_command(device_id);
    args.push(String::from_str("shell"));
    args.push(String::from_str("reboot"));
    args.push(String::from_str("-p"));
    proof {
        assert(views_of(args@) =~= seq!["-s"@, device_id@, "shell"@, "reboot"@, "-p"@]);
    }
    args
}

/// Arguments that reboot into recovery.
pub fn reboot_recovery_args(device_id: &str) -> (r: Vec<String>)
    ensures
        views_of(r@) == seq!["-s"@, device_id@, "reboot"@, "recovery"@],
{
    let mut args = device_command(device_id);
    args.push(String::from_str("reboot"));
    args.push(String::from_str("recovery"));
    proof {
        assert(views_of(args@) =~= seq!["-s"@, device_id@, "reboot"@, "recovery"@]);
    }
    args
}

/// Arguments that reboot into the bootloader.
pub fn reboot_bootloader_args(device_id: &str) -> (r: Vec<String>)
    ensures
        views_of(r@) == seq!["-s"@, device_id@, "reboot"@, "bootloader"@],
{
    let mut args = device_command(device_id);
    args.push(String::from_str("reboot"));
    args.push(String::from_str("bootloader"));
    proof {
        assert(views_of(args@) =~= seq!["-s"@, device_id@, "reboot"@, "bootloader"@]);
    }
    args
}

/// Arguments that record the screen to the device's storage for
/// `duration` seconds at `bitrate_kb` kilobits.
pub fn screenrecord_args(device_id: &str, duration: u32, bitrate_kb: u32) -> (r: Vec<String>)
    requires
        bitrate_kb * 1000 <= u32::MAX,
    ensures
        views_of(r@) == seq![
            "-s"@,
            device_id@,
            "shell"@,
            "screenrecord"@,
            "/sdcard/video.mp4"@,
            "--time-limit"@,
            dec_digits(duration as nat),
            "--bit-rate"@,
            dec_digits((bitrate_kb * 1000) as nat),
        ],
{
    let mut args = device_command(device_id);
    args.push(String::from_str("shell"));
    args.push(String::from_str("screenrecord"));
    args.push(String::from_str("/sdcard/video.mp4"));
    args.push(String::from_str("--time-limit"));
    args.push(u32_to_string(duration));
    args.push(String::from_str("--bit-rate"));
    args.push(u32_to_string(bitrate_kb * 1000));
    proof {
        assert(views_of(args@) =~= seq![
            "-s"@,
            device_id@,
            "shell"@,
            "screenrecord"@,
            "/sdcard/video.mp4"@,
            "--time-limit"@,
            dec_digits(duration as nat),
            "--bit-rate"@,
            dec_digits((bitrate_kb * 1000) as nat),
        ]);
    }
    args
}

/// Arguments that pull the recorded video to `dest`.
pub fn pull_video_args(device_id: &str, dest: &str) -> (r: Vec<String>)
    ensures
        views_of(r@) == seq!["-s"@, device_id@, "pull"@, "/sdcard/video.mp4"@, dest@],
{
    let mut args = device_command(device_id);
    args.push(String::from_str("pull"));
    args.push(String::from_str("/sdcard/video.mp4"));
    args.push(String::from_str(dest));
    proof {
        assert(views_of(args@) =~= seq![
            "-s"@,
            device_id@,
            "pull"@,
            "/sdcard/video.mp4"@,
            dest@,
        ]);
    }
    args
}

/// Arguments that uninstall one package.
pub fn uninstall_args(device_id: &str, package: &str) -> (r: Vec<String>)
    ensures
        views_of(r@) == seq!["-s"@, device_id@, "uninstall"@, package@],
{
    let mut args = device_command(device_id);
    args.push(String::from_str("uninstall"));
    args.push(String::from_str(package));
    proof {
        assert(views_of(args@) =~= seq!["-s"@, device_id@, "uninstall"@, package@]);
    }
    args
}

/// Arguments that disable one package for the main user.
pub fn disable_app_args(device_id: &str, package: &str) -> (r: Vec<String>)
    ensures
        views_of(r@) == seq![
            "-s"@,
            device_id@,
            "shell"@,
            "pm disable-user --user 0"@,
            package@,
        ],
{
    let mut args = device_command(device_id);
    args.push(String::from_str("shell"));
    args.push(String::from_str("pm disable-user --user 0"));
    args.push(String::from_str(package));
    proof {
        assert(views_of(args@) =~= seq![
            "-s"@,
            device_id@,
            "shell"@,
            "pm disable-user --user 0"@,
            package@,
        ]);
    }
    args
}


// ---------------------------------------------------------------------------
// The bitrate field

/// `s` with every trailing `c` removed.
pub open spec fn strip_trailing(s: Seq<char>, c: char) -> Seq<char>
    decreases s.len(),
{
    if s.len() > 0 && s.last() == c {
        strip_trailing(s.drop_last(), c)
    } else {
        s
    }
}

proof fn lemma_strip_trailing_is(s: Seq<char>, c: char, e: nat)
    requires
        e <= s.len(),
        forall|m: int| e <= m < s.len() ==> s[m] == c,
        e == 0 || s[e - 1] != c,
    ensures
        strip_trailing(s, c) == s.take(e as int),
    decreases s.len(),
{
    if s.len() > e {
        assert(s.last() == c);
        lemma_strip_trailing_is(s.drop_last(), c, e);
        assert(s.drop_last().take(e as int) =~= s.take(e as int));
    } else {
        assert(s.take(e as int) =~= s);
    }
}

/// The kilobits per second an uppercased, trimmed bitrate field means: a
/// number with `M` is megabits, with `K` or bare it is kilobits; a field
/// that does not parse falls back to eight megabits; nothing when the
/// megabit value does not fit.
pub open spec fn bitrate_kbps(u: Seq<char>) -> Option<nat> {
    if u.len() > 0 && u.last() == 'M' {
        let d = unsigned_digits(strip_trailing(u, 'M'));
        let v: nat = if digits_ok(d, u32::MAX as nat) {
            digits_val(d)
        } else {
            8
        };
        if v * 1000 <= u32::MAX as nat {
            Some(v * 1000)
        } else {
            None
        }
    } else if u.len() > 0 && u.last() == 'K' {
        let d = unsigned_digits(strip_trailing(u, 'K'));
        Some(
            if digits_ok(d, u32::MAX as nat) {
                digits_val(d)
            } else {
                8000
            },
        )
    } else {
        let d = unsigned_digits(u);
        Some(
            if digits_ok(d, u32::MAX as nat) {
                digits_val(d)
            } else {
                8000
            },
        )
    }
}

/// The digits before the trailing unit letters, as a string.
fn strip_unit(uv: &Vec<char>, unit: char) -> (r: String)
    ensures
        r@ == strip_trailing(uv@, unit),
{
    let mut e: usize = uv.len();
    while e > 0 && uv[e - 1] == unit
        invariant
            0 <= e <= uv@.len(),
            forall|m: int| e <= m < uv@.len() ==> uv@[m] == unit,
        decreases e,
    {
        e = e - 1;
    }
    proof {
        lemma_strip_trailing_is(uv@, unit, e as nat);
    }
    let r = crate::text::string_of_range(uv, 0, e);
    proof {
        assert(uv@.subrange(0, e as int) =~= uv@.take(e as int));
    }
    r
}

/// The kilobits per second the bitrate field means; the field is trimmed
/// and uppercased first.
pub fn parse_bitrate(s: &str) -> (r: Option<u32>)
    ensures
        match bitrate_kbps(upper_of(trim_of(s@))) {
            Some(v) => r is Some && r->0 as nat == v,
            None => r is None,
        },
{
    let sv = chars_of(s);
    let trimmed = trim_chars(&sv);
    let ts = string_of_chars(&trimmed);
    let upper = to_upper(ts.as_str());
    let uv = chars_of(upper.as_str());
    if uv.len() > 0 && uv[uv.len() - 1] == 'M' {
        let d = strip_unit(&uv, 'M');
        let v: u32 = match crate::text::parse_u32(d.as_str()) {
            Some(x) => x,
            None => 8,
        };
        if v <= 4294967 {
            Some(v * 1000)
        } else {
            None
        }
    } else if uv.len() > 0 && uv[uv.len() - 1] == 'K' {
        let d = strip_unit(&uv, 'K');
        match crate::text::parse_u32(d.as_str()) {
            Some(x) => Some(x),
            None => Some(8000),
        }
    } else {
        match crate::text::parse_u32(upper.as_str()) {
            Some(x) => Some(x),
            None => Some(8000),
        }
    }
}

/// Whether the bitrate field carries the megabit unit.
pub fn bitrate_is_mega(s: &str) -> (r: bool)
    ensures
        r == (upper_of(trim_of(s@)).len() > 0 && upper_of(trim_of(s@)).last() == 'M'),
{
    let sv = chars_of(s);
    let trimmed = trim_chars(&sv);
    let ts = string_of_chars(&trimmed);
    let upper = to_upper(ts.as_str());
    let uv = chars_of(upper.as_str());
    uv.len() > 0 && uv[uv.len() - 1] == 'M'
}

/// The field written back for a megabit value: the kilobits rounded to
/// the nearest thousand, half upward, and the `M` unit.
pub fn format_bitrate_mega(value_kbps: u32) -> (r: String)
    ensures
        r@ == dec_digits(((value_kbps + 500) / 1000) as nat) + "M"@,
{
    let rounded = ((value_kbps as u64) + 500) / 1000;
    let mut s = u64_to_string(rounded);
    s.append("M");
    s
}

/// The field written back for a kilobit value.
pub fn format_bitrate_kilo(value_kbps: u32) -> (r: String)
    ensures
        r@ == dec_digits(value_kbps as nat) + "K"@,
{
    let mut s = u32_to_string(value_kbps);
    s.append("K");
    s
}

// ---------------------------------------------------------------------------
// Swipes

/// The start and end points of a swipe on a screen of the given size: a
/// straight line across the middle three fifths, along the axis swiped.
pub open spec fn swipe_coords_spec(a: SwipeAction, w: int, h: int) -> (int, int, int, int) {
    match a {
        SwipeAction::Up => (w / 2, h * 4 / 5, w / 2, h / 5),
        SwipeAction::Down => (w / 2, h / 5, w / 2, h * 4 / 5),
        SwipeAction::Left => (w * 4 / 5, h / 2, w / 5, h / 2),
        SwipeAction::Right => (w / 5, h / 2, w * 4 / 5, h / 2),
    }
}

/// The swipe's start and end points.
pub fn swipe_coords(action: &SwipeAction, width: i32, height: i32) -> (r: (i32, i32, i32, i32))
    requires
        0 <= width <= i32::MAX / 4,
        0 <= height <= i32::MAX / 4,
    ensures
        (r.0 as int, r.1 as int, r.2 as int, r.3 as int) == swipe_coords_spec(
            *action,
            width as int,
            height as int,
        ),
{
    let w = width as u32;
    let h = height as u32;
    match action {
        SwipeAction::Up => ((w / 2) as i32, (h * 4 / 5) as i32, (w / 2) as i32, (h / 5) as i32),
        SwipeAction::Down => ((w / 2) as i32, (h / 5) as i32, (w / 2) as i32, (h * 4 / 5) as i32),
        SwipeAction::Left => ((w * 4 / 5) as i32, (h / 2) as i32, (w / 5) as i32, (h / 2) as i32),
        SwipeAction::Right => ((w / 5) as i32, (h / 2) as i32, (w * 4 / 5) as i32, (h / 2) as i32),
    }
}

/// The shell command that performs a swipe, over three hundred
/// milliseconds.
pub open spec fn swipe_command_text(a: SwipeAction, w: int, h: int) -> Seq<char> {
    let coords = swipe_coords_spec(a, w, h);
    "input swipe "@ + dec_digits(coords.0 as nat) + " "@ + dec_digits(coords.1 as nat) + " "@
        + dec_digits(coords.2 as nat) + " "@ + dec_digits(coords.3 as nat) + " 300"@
}

/// The swipe's shell command.
pub fn swipe_shell_command(action: &SwipeAction, width: i32, height: i32) -> (r: String)
    requires
        0 <= width <= i32::MAX / 4,
        0 <= height <= i32::MAX / 4,
    ensures
        r@ == swipe_command_text(*action, width as int, height as int),
{
    let coords = swipe_coords(action, width, height);
    let mut s = String::from_str("input swipe ");
    let d0 = u64_to_string(coords.0 as u64);
    s.append(d0.as_str());
    s.append(" ");
    let d1 = u64_to_string(coords.1 as u64);
    s.append(d1.as_str());
    s.append(" ");
    let d2 = u64_to_string(coords.2 as u64);
    s.append(d2.as_str());
    s.append(" ");
    let d3 = u64_to_string(coords.3 as u64);
    s.append(d3.as_str());
    s.append(" 300");
    s
}

/// The first whitespace-separated token holding an `x`.
pub open spec fn first_x_token(toks: Seq<Seq<char>>) -> Option<Seq<char>>
    decreases toks.len(),
{
    if toks.len() == 0 {
        None
    } else if contains_seq(toks[0], "x"@) {
        Some(toks[0])
    } else {
        first_x_token(toks.drop_first())
    }
}

/// Whether a token is a decimal number an `i32` can hold.
pub open spec fn i32_ok(t: Seq<char>) -> bool {
    signed_digits(t).len() > 0 && all_digits(signed_digits(t)) && i32::MIN <= signed_val(t)
        <= i32::MAX
}

/// The screen size in size output as the swipe handler reads it: the
/// first token holding an `x`, cut there into two numbers.
pub open spec fn swipe_size_of(s: Seq<char>) -> Option<(i32, i32)> {
    match first_x_token(ws_tokens(s)) {
        Some(t) => {
            let parts = split_parts(t, 'x');
            if parts.len() == 2 && i32_ok(parts[0]) && i32_ok(parts[1]) {
                Some((signed_val(parts[0]) as i32, signed_val(parts[1]) as i32))
            } else {
                None
            }
        },
        None => None,
    }
}

/// The screen size for a swipe.
pub fn parse_swipe_size(out: &str) -> (r: Option<(i32, i32)>)
    ensures
        r == swipe_size_of(out@),
{
    let toks = split_whitespace(out);
    let ghost tviews = views_of(toks@);
    let mut i: usize = 0;
    proof {
        assert(tviews.skip(0) =~= tviews);
    }
    while i < toks.len()
        invariant
            0 <= i <= toks@.len(),
            tviews == views_of(toks@),
            tviews == ws_tokens(out@),
            first_x_token(tviews.skip(i as int)) == first_x_token(tviews),
        decreases toks@.len() - i,
    {
        let ghost rest = tviews.skip(i as int);
        proof {
            assert(rest[0] == tviews[i as int]);
            assert(tviews[i as int] == toks@[i as int]@);
            assert(rest.drop_first() =~= tviews.skip(i as int + 1));
        }
        if contains_str(toks[i].as_str(), "x") {
            let parts = split_on(toks[i].as_str(), 'x');
            if parts.len() == 2 {
                proof {
                    assert(views_of(parts@)[0] == parts@[0]@);
                    assert(views_of(parts@)[1] == parts@[1]@);
                }
                let wv = crate::text::parse_i32(parts[0].as_str());
                let hv = crate::text::parse_i32(parts[1].as_str());
                if let (Some(w), Some(h)) = (wv, hv) {
                    return Some((w, h));
                }
                return None;
            }
            return None;
        }
        i = i + 1;
    }
    proof {
        assert(tviews.skip(toks@.len() as int) =~= Seq::<Seq<char>>::empty());
    }
    None
}

} // verus!
