//! Devices as the bridge tool reports them: one line per device in the
//! detailed listing, whitespace-separated fields, `key:value` attributes.

use vstd::prelude::*;

verus! {

use crate::text::{
    begins_with,
    begins_with_seq,
    chars_of,
    contains_seq,
    contains_str,
    digits_ok,
    digits_val,
    lines_of,
    parse_u32,
    split_on,
    split_parts,
    split_whitespace,
    str_eq,
    trim_of,
    trim_str,
    unsigned_digits,
    views_of,
    ws_tokens,
};
use vstd::string::StringExecFns;

/// One connected device.
#[derive(Debug, Clone)]
pub struct Device {
    pub identifier: String,
    pub status: DeviceStatus,
    pub product: String,
    pub model: String,
    pub device: String,
    pub transport_id: String,
}

/// The state the bridge tool reports for a device.
#[derive(Debug, Clone)]
pub enum DeviceStatus {
    Device,
    Offline,
    Unauthorized,
    NoPermission,
    Unknown(String),
}

/// Whether `st` is the status that the status field `s` names: each known
/// word its own variant, anything else kept verbatim as `Unknown`.
pub open spec fn status_matches(st: DeviceStatus, s: Seq<char>) -> bool {
    match st {
        DeviceStatus::Device => s == "device"@,
        DeviceStatus::Offline => s == "offline"@,
        DeviceStatus::Unauthorized => s == "unauthorized"@,
        DeviceStatus::NoPermission => s == "no_permission"@,
        DeviceStatus::Unknown(u) => u@ == s && s != "device"@ && s != "offline"@ && s
            != "unauthorized"@ && s != "no_permission"@,
    }
}

impl DeviceStatus {
    /// The status a status field names.
    pub fn parse(s: &str) -> (r: Self)
        ensures
            status_matches(r, s@),
    {
        if str_eq(s, "device") {
            DeviceStatus::Device
        } else if str_eq(s, "offline") {
            DeviceStatus::Offline
        } else if str_eq(s, "unauthorized") {
            DeviceStatus::Unauthorized
        } else if str_eq(s, "no_permission") {
            DeviceStatus::NoPermission
        } else {
            DeviceStatus::Unknown(String::from_str(s))
        }
    }
}

impl Device {
    /// Only a device in the plain `device` state takes commands.
    pub fn is_usable(&self) -> (r: bool)
        ensures
            r == (self.status is Device),
    {
        match self.status {
            DeviceStatus::Device => true,
            _ => false,
        }
    }
}

// ---------------------------------------------------------------------------
// The detailed device listing

/// The second `:`-separated field of a token, or `unknown` when the token
/// has no `:` at all.
pub open spec fn colon_field(t: Seq<char>) -> Seq<char> {
    let parts = split_parts(t, ':');
    if parts.len() >= 2 {
        parts[1]
    } else {
        "unknown"@
    }
}

/// The value of the first token carrying `prefix`, or `unknown`.
pub open spec fn field_of(toks: Seq<Seq<char>>, prefix: Seq<char>) -> Seq<char>
    decreases toks.len(),
{
    if toks.len() == 0 {
        "unknown"@
    } else if begins_with_seq(toks[0], prefix) {
        colon_field(toks[0])
    } else {
        field_of(toks.drop_first(), prefix)
    }
}

/// Whether a listing line yields a device: not blank, at least an
/// identifier and a status field.
pub open spec fn line_kept(line: Seq<char>) -> bool {
    trim_of(line).len() > 0 && ws_tokens(line).len() >= 2
}

/// The lines that yield devices, in order.
pub open spec fn kept_lines(ls: Seq<Seq<char>>) -> Seq<Seq<char>>
    decreases ls.len(),
{
    if ls.len() == 0 {
        seq![]
    } else {
        (if line_kept(ls[0]) {
            seq![ls[0]]
        } else {
            seq![]
        }) + kept_lines(ls.drop_first())
    }
}

/// The device-yielding lines of a detailed listing, the header skipped.
pub open spec fn device_lines_of(s: Seq<char>) -> Seq<Seq<char>> {
    let ls = lines_of(s);
    if ls.len() == 0 {
        seq![]
    } else {
        kept_lines(ls.drop_first())
    }
}

/// Whether `d` is the device a listing line describes.
pub open spec fn device_of_line(d: Device, line: Seq<char>) -> bool {
    let toks = ws_tokens(line);
    &&& d.identifier@ == toks[0]
    &&& status_matches(d.status, toks[1])
    &&& d.product@ == field_of(toks, "product:"@)
    &&& d.model@ == field_of(toks, "model:"@)
    &&& d.device@ == field_of(toks, "device:"@)
    &&& d.transport_id@ == field_of(toks, "transport_id:"@)
}

/// The value of the first `prefix:`-token, or `unknown`.
fn field_lookup(toks: &Vec<String>, prefix: &str) -> (r: String)
    ensures
        r@ == field_of(views_of(toks@), prefix@),
{
    let pv = chars_of(prefix);
    let ghost tviews = views_of(toks@);
    let mut j: usize = 0;
    proof {
        assert(tviews.skip(0) =~= tviews);
    }
    while j < toks.len()
        invariant
            0 <= j <= toks@.len(),
            pv@ == prefix@,
            tviews == views_of(toks@),
            field_of(tviews.skip(j as int), prefix@) == field_of(tviews, prefix@),
        decreases toks@.len() - j,
    {
        let ghost rest = tviews.skip(j as int);
        proof {
            assert(rest[0] == tviews[j as int]);
            assert(tviews[j as int] == toks@[j as int]@);
            assert(rest.drop_first() =~= tviews.skip(j as int + 1));
        }
        let tv = chars_of(toks[j].as_str());
        if begins_with(&tv, &pv) {
            let parts = split_on(toks[j].as_str(), ':');
            proof {
                assert(views_of(parts@).len() == parts@.len());
            }
            if parts.len() >= 2 {
                proof {
                    assert(views_of(parts@)[1] == parts@[1]@);
                }
                return parts[1].clone();
            } else {
                return String::from_str("unknown");
            }
        }
        j = j + 1;
    }
    proof {
        assert(tviews.skip(toks@.len() as int) =~= Seq::<Seq<char>>::empty());
    }
    String::from_str("unknown")
}

/// The devices a detailed listing names: one per line after the header,
/// blank and short lines skipped.
pub fn parse_device_list(output: &str) -> (r: Vec<Device>)
    ensures
        r@.len() == device_lines_of(output@).len(),
        forall|k: int|
            0 <= k < r@.len() ==> device_of_line(#[trigger] r@[k], device_lines_of(output@)[k]),
{
    let ls = crate::text::split_lines(output);
    let ghost lviews = views_of(ls@);
    let ghost klines = device_lines_of(output@);
    let mut r: Vec<Device> = Vec::new();
    if ls.len() == 0 {
        return r;
    }
    proof {
        assert(lviews.drop_first() =~= lviews.skip(1));
    }
    let mut i: usize = 1;
    while i < ls.len()
        invariant
            1 <= i <= ls@.len(),
            lviews == views_of(ls@),
            klines == device_lines_of(output@),
            r@.len() <= klines.len(),
            kept_lines(lviews.skip(i as int)) == klines.skip(r@.len() as int),
            forall|k: int|
                0 <= k < r@.len() ==> device_of_line(#[trigger] r@[k], klines[k]),
        decreases ls@.len() - i,
    {
        let ghost rest = lviews.skip(i as int);
        let ghost rlen = r@.len() as int;
        proof {
            assert(rest[0] == lviews[i as int]);
            assert(lviews[i as int] == ls@[i as int]@);
            assert(rest.drop_first() =~= lviews.skip(i as int + 1));
        }
        let line = ls[i].as_str();
        let trimmed = trim_str(line);
        let toks = split_whitespace(line);
        if !trimmed.as_str().is_empty() && toks.len() >= 2 {
            proof {
                assert(line_kept(rest[0]));
                assert(klines.skip(rlen)[0] == klines[rlen]);
                assert(klines.skip(rlen).drop_first() =~= klines.skip(rlen + 1));
                assert(kept_lines(lviews.skip(i as int + 1)) =~= klines.skip(rlen + 1));
                assert(views_of(toks@)[0] == toks@[0]@);
                assert(views_of(toks@)[1] == toks@[1]@);
            }
            let identifier = toks[0].clone();
            let status = if str_eq(toks[1].as_str(), "no_permission") {
                DeviceStatus::NoPermission
            } else {
                DeviceStatus::parse(toks[1].as_str())
            };
            let product = field_lookup(&toks, "product:");
            let model = field_lookup(&toks, "model:");
            let device = field_lookup(&toks, "device:");
            let transport_id = field_lookup(&toks, "transport_id:");
            let d = Device { identifier, status, product, model, device, transport_id };
            proof {
                assert(device_of_line(d, klines[rlen]));
            }
            r.push(d);
        } else {
            proof {
                assert(!line_kept(rest[0]));
                assert(kept_lines(lviews.skip(i as int + 1)) =~= klines.skip(rlen));
            }
        }
        i = i + 1;
    }
    proof {
        assert(lviews.skip(ls@.len() as int) =~= Seq::<Seq<char>>::empty());
        assert(klines.skip(r@.len() as int).len() == 0);
    }
    r
}

// ---------------------------------------------------------------------------
// Screen dimensions

/// The dimensions one line reports: a size line holds `key: WxH` with both
/// numbers in range.
pub open spec fn line_dims(line: Seq<char>) -> Option<(u32, u32)> {
    if contains_seq(line, "Physical size:"@) || contains_seq(line, "Override size:"@) {
        let parts = split_parts(line, ':');
        if parts.len() == 2 {
            let d = split_parts(trim_of(parts[1]), 'x');
            if d.len() == 2 && digits_ok(unsigned_digits(d[0]), u32::MAX as nat) && digits_ok(
                unsigned_digits(d[1]),
                u32::MAX as nat,
            ) {
                Some(
                    (
                        digits_val(unsigned_digits(d[0])) as u32,
                        digits_val(unsigned_digits(d[1])) as u32,
                    ),
                )
            } else {
                None
            }
        } else {
            None
        }
    } else {
        None
    }
}

/// The first dimensions any line reports.
pub open spec fn dims_of_lines(ls: Seq<Seq<char>>) -> Option<(u32, u32)>
    decreases ls.len(),
{
    if ls.len() == 0 {
        None
    } else {
        match line_dims(ls[0]) {
            Some(d) => Some(d),
            None => dims_of_lines(ls.drop_first()),
        }
    }
}

/// What the window-manager size output reports.
pub open spec fn dims_of(s: Seq<char>) -> Option<(u32, u32)> {
    dims_of_lines(lines_of(s))
}

/// The screen size in the window manager's size output, from the first
/// line of the form `Physical size: WxH` or `Override size: WxH`.
pub fn parse_dimensions(output: &str) -> (r: Option<(u32, u32)>)
    ensures
        r == dims_of(output@),
{
    let ls = crate::text::split_lines(output);
    let ghost lviews = views_of(ls@);
    let mut i: usize = 0;
    proof {
        assert(lviews.skip(0) =~= lviews);
    }
    while i < ls.len()
        invariant
            0 <= i <= ls@.len(),
            lviews == views_of(ls@),
            lviews == lines_of(output@),
            dims_of_lines(lviews.skip(i as int)) == dims_of(output@),
        decreases ls@.len() - i,
    {
        let ghost rest = lviews.skip(i as int);
        proof {
            assert(rest[0] == lviews[i as int]);
            assert(lviews[i as int] == ls@[i as int]@);
            assert(rest.drop_first() =~= lviews.skip(i as int + 1));
        }
        let line = ls[i].as_str();
        if contains_str(line, "Physical size:") || contains_str(line, "Override size:") {
            let parts = split_on(line, ':');
            if parts.len() == 2 {
                proof {
                    assert(views_of(parts@)[1] == parts@[1]@);
                }
                let size_str = trim_str(parts[1].as_str());
                let dims = split_on(size_str.as_str(), 'x');
                if dims.len() == 2 {
                    proof {
                        assert(views_of(dims@)[0] == dims@[0]@);
                        assert(views_of(dims@)[1] == dims@[1]@);
                    }
                    let w = parse_u32(dims[0].as_str());
                    let h = parse_u32(dims[1].as_str());
                    if let (Some(width), Some(height)) = (w, h) {
                        return Some((width, height));
                    }
                }
            }
        }
        i = i + 1;
    }
    proof {
        assert(lviews.skip(ls@.len() as int) =~= Seq::<Seq<char>>::empty());
    }
    None
}

} // verus!
