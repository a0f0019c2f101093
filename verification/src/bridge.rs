//! The two external tools, each a path plus the argument vectors handed to
//! it.  Spawning the processes is the surrounding application's business;
//! what is built and what their output means is specified and proved here.

use vstd::prelude::*;

verus! {

use crate::text::{
    chars_of,
    contains_seq,
    contains_str,
    dec_digits,
    lines_of,
    lower_of,
    split_on,
    split_parts,
    str_eq,
    to_lower,
    trim_of,
    trim_str,
    u32_to_string,
    u64_to_string,
    views_of,
    ws_tokens,
};
use vstd::string::StringExecFns;

/// The device bridge tool, `adb`.
pub struct AdbBridge {
    path: String,
}

/// The screen mirror tool, `scrcpy`.
pub struct ScrcpyBridge {
    path: String,
}

/// The view of an optional `&str`.
pub open spec fn opt_view(o: Option<&str>) -> Option<Seq<char>> {
    match o {
        Some(s) => Some(s@),
        None => None,
    }
}

/// The view of an optional owned string.
pub open spec fn opt_string_view(o: Option<String>) -> Option<Seq<char>> {
    match o {
        Some(s) => Some(s@),
        None => None,
    }
}

/// `["-s", device]` when a device is selected, else nothing.
pub open spec fn select_args(device_id: Option<Seq<char>>) -> Seq<Seq<char>> {
    match device_id {
        Some(d) => seq!["-s"@, d],
        None => seq![],
    }
}

impl AdbBridge {
    /// The configured executable path.
    pub closed spec fn spec_path(&self) -> Seq<char> {
        self.path@
    }

    pub fn new(path: String) -> (r: Self)
        ensures
            r.spec_path() == path@,
    {
        Self { path }
    }

    pub fn path(&self) -> (r: &str)
        ensures
            r@ == self.spec_path(),
    {
        self.path.as_str()
    }

    /// Arguments that list the connected devices.
    pub fn devices_args(&self) -> (r: Vec<String>)
        ensures
            views_of(r@) == seq!["devices"@],
    {
        let mut args: Vec<String> = Vec::new();
        args.push(String::from_str("devices"));
        proof {
            assert(views_of(args@) =~= seq!["devices"@]);
        }
        args
    }

    /// Arguments that run a shell command, on one device when selected.
    pub fn shell_args(&self, command: &str, device_id: Option<&str>) -> (r: Vec<String>)
        ensures
            views_of(r@) == select_args(opt_view(device_id)) + seq!["shell"@, command@],
    {
        let mut args: Vec<String> = Vec::new();
        if let Some(device) = device_id {
            args.push(String::from_str("-s"));
            args.push(String::from_str(device));
        }
        args.push(String::from_str("shell"));
        args.push(String::from_str(command));
        proof {
            assert(views_of(args@) =~= select_args(opt_view(device_id)) + seq![
                "shell"@,
                command@,
            ]);
        }
        args
    }

    /// Arguments that switch a device to TCP/IP mode on `port`.
    pub fn tcpip_args(&self, port: u16, device_id: Option<&str>) -> (r: Vec<String>)
        ensures
            views_of(r@) == select_args(opt_view(device_id)) + seq![
                "-d"@,
                "tcpip"@,
                dec_digits(port as nat),
            ],
    {
        let mut args: Vec<String> = Vec::new();
        if let Some(device) = device_id {
            args.push(String::from_str("-s"));
            args.push(String::from_str(device));
        }
        args.push(String::from_str("-d"));
        args.push(String::from_str("tcpip"));
        args.push(u64_to_string(port as u64));
        proof {
            assert(views_of(args@) =~= select_args(opt_view(device_id)) + seq![
                "-d"@,
                "tcpip"@,
                dec_digits(port as nat),
            ]);
        }
        args
    }

    /// Arguments that connect to `ip:port` over the network.
    pub fn connect_args(&self, ip: &str, port: u16) -> (r: Vec<String>)
        ensures
            views_of(r@) == seq!["connect"@, endpoint_text(ip@, port)],
    {
        let mut args: Vec<String> = Vec::new();
        args.push(String::from_str("connect"));
        args.push(endpoint_string(ip, port));
        proof {
            assert(views_of(args@) =~= seq!["connect"@, endpoint_text(ip@, port)]);
        }
        args
    }

    /// Arguments that pair with `ip:port` using a pairing code.
    pub fn pair_args(&self, ip: &str, port: u16, pairing_code: &str) -> (r: Vec<String>)
        ensures
            views_of(r@) == seq!["pair"@, endpoint_text(ip@, port), pairing_code@],
    {
        let mut args: Vec<String> = Vec::new();
        args.push(String::from_str("pair"));
        args.push(endpoint_string(ip, port));
        args.push(String::from_str(pairing_code));
        proof {
            assert(views_of(args@) =~= seq!["pair"@, endpoint_text(ip@, port), pairing_code@]);
        }
        args
    }
}

/// `ip:port`, as the bridge tool addresses a network endpoint.
pub open spec fn endpoint_text(ip: Seq<char>, port: u16) -> Seq<char> {
    ip + ":"@ + dec_digits(port as nat)
}

/// `ip:port` as a string.
pub fn endpoint_string(ip: &str, port: u16) -> (r: String)
    ensures
        r@ == endpoint_text(ip@, port),
{
    let mut s = String::from_str(ip);
    s.append(":");
    let p = u64_to_string(port as u64);
    s.append(p.as_str());
    s
}

impl ScrcpyBridge {
    /// The configured executable path.
    pub closed spec fn spec_path(&self) -> Seq<char> {
        self.path@
    }

    pub fn new(path: String) -> (r: Self)
        ensures
            r.spec_path() == path@,
    {
        Self { path }
    }

    pub fn path(&self) -> (r: &str)
        ensures
            r@ == self.spec_path(),
    {
        self.path.as_str()
    }

    /// The argument vector for one mirror session: the selected device, the
    /// bitrate, the optional orientation, the flags, the optional size cap,
    /// and finally the extra arguments split on whitespace.
    #[verifier::rlimit(50)]
    pub fn build_args(
        &self,
        device_id: Option<&str>,
        bitrate: &str,
        orientation: Option<String>,
        show_touches: bool,
        fullscreen: bool,
        dimension: Option<u32>,
        extra_args: &str,
        turn_screen_off: bool,
    ) -> (r: Vec<String>)
        ensures
            views_of(r@) == mirror_args(
                opt_view(device_id),
                bitrate@,
                opt_string_view(orientation),
                show_touches,
                fullscreen,
                dimension,
                extra_args@,
                turn_screen_off,
            ),
    {
        let ghost o_view = opt_string_view(orientation);
        let mut args: Vec<String> = Vec::new();

        let ghost seg1 = select_args(opt_view(device_id));
        if let Some(device) = device_id {
            args.push(String::from_str("-s"));
            args.push(String::from_str(device));
        }
        proof {
            assert(views_of(args@) =~= seg1);
        }

        let ghost seg2 = seg1 + seq!["-b"@, bitrate@];
        args.push(String::from_str("-b"));
        args.push(String::from_str(bitrate));
        proof {
            assert(views_of(args@) =~= seg2);
        }

        let ghost seg3 = seg2 + (match o_view {
            Some(o) => if o.len() > 0 {
                seq!["--orientation"@, o]
            } else {
                seq![]
            },
            None => seq![],
        });
        if let Some(orientation) = orientation {
            if !orientation.as_str().is_empty() {
                args.push(String::from_str("--orientation"));
                args.push(orientation);
            }
        }
        proof {
            assert(views_of(args@) =~= seg3);
        }

        let ghost seg4 = seg3 + (if show_touches {
            seq!["--show-touches"@]
        } else {
            seq![]
        });
        if show_touches {
            args.push(String::from_str("--show-touches"));
        }
        proof {
            assert(views_of(args@) =~= seg4);
        }

        let ghost seg5 = seg4 + (if fullscreen {
            seq!["--fullscreen"@]
        } else {
            seq![]
        });
        if fullscreen {
            args.push(String::from_str("--fullscreen"));
        }
        proof {
            assert(views_of(args@) =~= seg5);
        }

        let ghost seg6 = seg5 + (match dimension {
            Some(d) => seq!["--max-size"@, dec_digits(d as nat)],
            None => seq![],
        });
        if let Some(dim) = dimension {
            args.push(String::from_str("--max-size"));
            args.push(u32_to_string(dim));
        }
        proof {
            assert(views_of(args@) =~= seg6);
        }

        let ghost seg7 = seg6 + (if turn_screen_off {
            seq!["-S"@]
        } else {
            seq![]
        });
        if turn_screen_off {
            args.push(String::from_str("-S"));
        }
        proof {
            assert(views_of(args@) =~= seg7);
        }

        let extra = crate::text::split_whitespace(extra_args);
        let ghost head = args@;
        let mut k: usize = 0;
        while k < extra.len()
            invariant
                0 <= k <= extra@.len(),
                args@.len() == head.len() + k,
                forall|m: int| 0 <= m < head.len() ==> args@[m] == head[m],
                forall|m: int| 0 <= m < k ==> args@[head.len() + m] == #[trigger] extra@[m],
            decreases extra@.len() - k,
        {
            let s = extra[k].clone();
            args.push(s);
            k = k + 1;
        }
        proof {
            assert(args@ =~= head + extra@);
            assert(views_of(args@) =~= views_of(head) + views_of(extra@));
            assert(views_of(args@) =~= seg7 + ws_tokens(extra_args@));
        }
        args
    }
}

/// What `ScrcpyBridge::build_args` assembles.
pub open spec fn mirror_args(
    device_id: Option<Seq<char>>,
    bitrate: Seq<char>,
    orientation: Option<Seq<char>>,
    show_touches: bool,
    fullscreen: bool,
    dimension: Option<u32>,
    extra_args: Seq<char>,
    turn_screen_off: bool,
) -> Seq<Seq<char>> {
    select_args(device_id) + seq!["-b"@, bitrate] + (match orientation {
        Some(o) => if o.len() > 0 {
            seq!["--orientation"@, o]
        } else {
            seq![]
        },
        None => seq![],
    }) + (if show_touches {
        seq!["--show-touches"@]
    } else {
        seq![]
    }) + (if fullscreen {
        seq!["--fullscreen"@]
    } else {
        seq![]
    }) + (match dimension {
        Some(d) => seq!["--max-size"@, dec_digits(d as nat)],
        None => seq![],
    }) + (if turn_screen_off {
        seq!["-S"@]
    } else {
        seq![]
    }) + ws_tokens(extra_args)
}


// ---------------------------------------------------------------------------
// Reading the device list

/// The identifier a device-list line contributes: its first tab-separated
/// field, kept only when the second field is exactly `device`.
pub open spec fn device_line_id(line: Seq<char>) -> Option<Seq<char>> {
    let parts = split_parts(line, '\t');
    if parts.len() >= 2 && parts[1] == "device"@ {
        Some(parts[0])
    } else {
        None
    }
}

/// The identifiers the given device-list lines contribute, in order.
pub open spec fn device_ids_rec(ls: Seq<Seq<char>>) -> Seq<Seq<char>>
    decreases ls.len(),
{
    if ls.len() == 0 {
        seq![]
    } else {
        (match device_line_id(ls[0]) {
            Some(id) => seq![id],
            None => seq![],
        }) + device_ids_rec(ls.drop_first())
    }
}

/// The ready devices named by the output of the `devices` command: every
/// line after the header whose status field is `device`.
pub open spec fn device_ids_of(s: Seq<char>) -> Seq<Seq<char>> {
    let ls = lines_of(s);
    if ls.len() == 0 {
        seq![]
    } else {
        device_ids_rec(ls.drop_first())
    }
}

/// The identifiers of the ready devices in `devices` output.
pub fn parse_devices_output(output: &str) -> (r: Vec<String>)
    ensures
        views_of(r@) == device_ids_of(output@),
{
    let ls = crate::text::split_lines(output);
    let ghost lviews = views_of(ls@);
    let mut r: Vec<String> = Vec::new();
    if ls.len() == 0 {
        proof {
            assert(views_of(r@) =~= device_ids_of(output@));
        }
        return r;
    }
    proof {
        assert(lviews.drop_first() =~= lviews.skip(1));
        assert(views_of(r@) + device_ids_rec(lviews.skip(1)) =~= device_ids_rec(
            lviews.skip(1),
        ));
    }
    let mut i: usize = 1;
    while i < ls.len()
        invariant
            1 <= i <= ls@.len(),
            lviews == views_of(ls@),
            views_of(r@) + device_ids_rec(lviews.skip(i as int)) == device_ids_rec(
                lviews.skip(1),
            ),
        decreases ls@.len() - i,
    {
        let ghost rest = lviews.skip(i as int);
        proof {
            assert(rest[0] == lviews[i as int]);
            assert(lviews[i as int] == ls@[i as int]@);
            assert(rest.drop_first() =~= lviews.skip(i as int + 1));
        }
        let parts = split_on(ls[i].as_str(), '\t');
        if parts.len() >= 2 && str_eq(parts[1].as_str(), "device") {
            proof {
                assert(views_of(parts@)[0] == parts@[0]@);
                assert(views_of(parts@)[1] == parts@[1]@);
            }
            r.push(parts[0].clone());
            proof {
                assert(device_line_id(rest[0]) == Some(parts@[0]@));
                assert(views_of(r@) + device_ids_rec(lviews.skip(i as int + 1))
                    =~= device_ids_rec(lviews.skip(1)));
            }
        } else {
            proof {
                if parts@.len() >= 2 {
                    assert(views_of(parts@)[1] == parts@[1]@);
                }
                assert(device_line_id(rest[0]) is None);
                assert(views_of(r@) + device_ids_rec(lviews.skip(i as int + 1))
                    =~= device_ids_rec(lviews.skip(1)));
            }
        }
        i = i + 1;
    }
    proof {
        assert(lviews.skip(ls@.len() as int) =~= Seq::<Seq<char>>::empty());
        assert(views_of(r@) =~= device_ids_rec(lviews.skip(1)));
        assert(views_of(r@) =~= device_ids_of(output@));
    }
    r
}

// ---------------------------------------------------------------------------
// Explaining a failed connect

/// The report for a failed network connect, chosen from the tool's own
/// error channels after lowercasing: the known failure patterns each get
/// their advice text, anything else is passed through trimmed.
pub open spec fn connect_error_text(
    ip: Seq<char>,
    port: u16,
    se: Seq<char>,
    so: Seq<char>,
) -> Seq<char> {
    let addr = endpoint_text(ip, port);
    if contains_seq(se, "connection refused"@) || contains_seq(so, "connection refused"@) {
        "Connection refused: Unable to connect to "@ + addr
            + ". Please check if:\n• The device is powered on and connected to the same network\n• The IP address "@
            + ip + " is correct\n• Port "@ + dec_digits(port as nat)
            + " is not blocked by firewall\n• ADB TCP/IP is enabled on the device (run 'adb tcpip 5555' on USB first)"@
    } else if contains_seq(se, "no route to host"@) || contains_seq(so, "no route to host"@) {
        "No route to host: Cannot reach "@ + addr + ". Please check if:\n• The IP address "@
            + ip
            + " is correct\n• The device is on the same network\n• Your network allows the connection"@
    } else if contains_seq(se, "timeout"@) || contains_seq(so, "timeout"@) {
        "Connection timeout: Unable to reach "@ + addr
            + ". Please check if:\n• The device is powered on\n• The IP address "@ + ip
            + " is correct\n• The device is on the same network"@
    } else if contains_seq(se, "already connected"@) || contains_seq(so, "already connected"@) {
        "Already connected to "@ + addr
    } else {
        let msg = if se.len() > 0 {
            se
        } else if so.len() > 0 {
            so
        } else {
            "Unknown connection error"@
        };
        "Failed to connect to "@ + addr + " - "@ + trim_of(msg)
    }
}

/// The connect failure report, from already lowercased error output.
pub fn connect_error_lowered(ip: &str, port: u16, se: &str, so: &str) -> (r: String)
    ensures
        r@ == connect_error_text(ip@, port, se@, so@),
{
    let addr = endpoint_string(ip, port);
    let p = u64_to_string(port as u64);
    if contains_str(se, "connection refused") || contains_str(so, "connection refused") {
        let mut s = String::from_str("Connection refused: Unable to connect to ");
        s.append(addr.as_str());
        s.append(
            ". Please check if:\n• The device is powered on and connected to the same network\n• The IP address ",
        );
        s.append(ip);
        s.append(" is correct\n• Port ");
        s.append(p.as_str());
        s.append(
            " is not blocked by firewall\n• ADB TCP/IP is enabled on the device (run 'adb tcpip 5555' on USB first)",
        );
        s
    } else if contains_str(se, "no route to host") || contains_str(so, "no route to host") {
        let mut s = String::from_str("No route to host: Cannot reach ");
        s.append(addr.as_str());
        s.append(". Please check if:\n• The IP address ");
        s.append(ip);
        s.append(
            " is correct\n• The device is on the same network\n• Your network allows the connection",
        );
        s
    } else if contains_str(se, "timeout") || contains_str(so, "timeout") {
        let mut s = String::from_str("Connection timeout: Unable to reach ");
        s.append(addr.as_str());
        s.append(". Please check if:\n• The device is powered on\n• The IP address ");
        s.append(ip);
        s.append(" is correct\n• The device is on the same network");
        s
    } else if contains_str(se, "already connected") || contains_str(so, "already connected") {
        let mut s = String::from_str("Already connected to ");
        s.append(addr.as_str());
        s
    } else {
        let msg = if !se.is_empty() {
            se
        } else if !so.is_empty() {
            so
        } else {
            "Unknown connection error"
        };
        let trimmed = trim_str(msg);
        let mut s = String::from_str("Failed to connect to ");
        s.append(addr.as_str());
        s.append(" - ");
        s.append(trimmed.as_str());
        s
    }
}

/// The connect failure report, from the tool's raw error output; the output
/// is lowercased first, as the patterns are matched case-insensitively.
pub fn connect_error_report(ip: &str, port: u16, stderr_raw: &str, stdout_raw: &str) -> (r:
    String)
    ensures
        r@ == connect_error_text(ip@, port, lower_of(stderr_raw@), lower_of(stdout_raw@)),
{
    let se = to_lower(stderr_raw);
    let so = to_lower(stdout_raw);
    connect_error_lowered(ip, port, se.as_str(), so.as_str())
}

} // verus!
