//! The Bluetooth and Wi-Fi popups: what is read from `bluetoothctl` and
//! `nmcli`, and what the popups list.

use vstd::prelude::*;
use vstd::string::*;
use crate::text::{
    chars_of, chars_are, string_from, trim_chars, split_chars, splitn_chars, split_lines,
    same_chars, views, trim, split_on, splitn_on, lines_of,
};

verus! {

/// The placeholder of the Bluetooth popup while devices are listed.
pub const BLUETOOTH_LOADING: &'static str = "\u{f00af} Loading...";

/// The placeholder of the Wi-Fi popup while networks are scanned.
pub const WIFI_SCANNING: &'static str = "\u{f0928} Scanning...";

/// The notice of the Bluetooth popup when Bluetooth is off.
pub const BLUETOOTH_OFF_NOTICE: &'static str = "Bluetooth is turned off.";

/// The notice of the Bluetooth popup when no device is paired.
pub const NO_DEVICES_NOTICE: &'static str = "No paired devices found.";

/// The notice of the Wi-Fi popup when the radio is off.
pub const WIFI_OFF_NOTICE: &'static str = "Wi-Fi is turned off.";

/// The notice of the Wi-Fi popup when no network is seen.
pub const NO_NETWORKS_NOTICE: &'static str = "No networks found.";

/// A row of a popup: a name, and a button that runs `program` with `args`.
pub struct PopupRow {
    pub label: String,
    pub action: String,
    pub danger: bool,
    pub program: String,
    pub args: Vec<String>,
}

/// The plain values of a row.
pub struct RowView {
    pub label: Seq<char>,
    pub action: Seq<char>,
    pub danger: bool,
    pub program: Seq<char>,
    pub args: Seq<Seq<char>>,
}

/// The strings as character sequences.
pub open spec fn string_views(v: Seq<String>) -> Seq<Seq<char>> {
    v.map_values(|s: String| s@)
}

impl View for PopupRow {
    type V = RowView;

    open spec fn view(&self) -> RowView {
        RowView {
            label: self.label@,
            action: self.action@,
            danger: self.danger,
            program: self.program@,
            args: string_views(self.args@),
        }
    }
}

/// What a popup shows: a notice, or one row per item.
pub enum PopupContent {
    Notice(String),
    Rows(Vec<PopupRow>),
}

/// The plain values of what a popup shows.
pub enum ContentView {
    Notice(Seq<char>),
    Rows(Seq<RowView>),
}

impl View for PopupContent {
    type V = ContentView;

    open spec fn view(&self) -> ContentView {
        match self {
            PopupContent::Notice(s) => ContentView::Notice(s@),
            PopupContent::Rows(rows) => ContentView::Rows(rows@.map_values(|r: PopupRow| r@)),
        }
    }
}

/// A string holding the characters of `s`.
fn owned(s: &str) -> (r: String)
    ensures
        r@ == s@,
{
    String::from_str(s)
}

/// The action of a row's button: disconnect when connected, else connect.
pub open spec fn action_of(connected: bool) -> Seq<char> {
    if connected {
        "Disconnect"@
    } else {
        "Connect"@
    }
}

// ---------------------------------------------------------------- Bluetooth

/// A paired device as `bluetoothctl devices` lists it.
pub struct PairedDevice {
    pub mac: String,
    pub name: String,
}

/// The device that a line `Device MAC NAME` of `bluetoothctl devices`
/// describes: the line split at its first two spaces, the first part being
/// `Device`.
pub open spec fn device_of_line(line: Seq<char>) -> Option<(Seq<char>, Seq<char>)> {
    let p = splitn_on(line, 3, ' ');
    if p.len() == 3 && p[0] == "Device"@ {
        Some((p[1], p[2]))
    } else {
        None
    }
}

/// The MAC addresses of a list of devices.
pub open spec fn macs(d: Seq<(Seq<char>, Seq<char>)>) -> Seq<Seq<char>> {
    d.map_values(|x: (Seq<char>, Seq<char>)| x.0)
}

/// The devices that the lines describe, in order, a MAC address listed
/// again being skipped.
pub open spec fn paired_devices(lines: Seq<Seq<char>>) -> Seq<(Seq<char>, Seq<char>)>
    decreases lines.len(),
{
    if lines.len() == 0 {
        Seq::empty()
    } else {
        let d = paired_devices(lines.drop_last());
        match device_of_line(lines.last()) {
            Some((m, n)) => if macs(d).contains(m) {
                d
            } else {
                d.push((m, n))
            },
            None => d,
        }
    }
}

/// The devices as (MAC, name) pairs.
pub open spec fn device_views(d: Seq<PairedDevice>) -> Seq<(Seq<char>, Seq<char>)> {
    d.map_values(|x: PairedDevice| (x.mac@, x.name@))
}

/// Whether `m` is the MAC of one of `d`.
fn has_mac(d: &Vec<PairedDevice>, m: &Vec<char>) -> (r: bool)
    ensures
        r == macs(device_views(d@)).contains(m@),
{
    let ghost ms = macs(device_views(d@));
    for i in 0..d.len()
        invariant
            ms == macs(device_views(d@)),
            forall|j: int| 0 <= j < i ==> ms[j] != m@,
    {
        let mv = chars_of(d[i].mac.as_str());
        assert(ms[i as int] == mv@);
        if same_chars(mv.as_slice(), m.as_slice()) {
            return true;
        }
    }
    false
}

/// The paired devices listed by `bluetoothctl devices`, each MAC once.
pub fn parse_paired_devices(out: &str) -> (r: Vec<PairedDevice>)
    ensures
        device_views(r@) == paired_devices(lines_of(out@)),
{
    let lines = split_lines(chars_of(out).as_slice());
    let ghost ls = views(lines@);
    let mut r: Vec<PairedDevice> = Vec::new();
    for i in 0..lines.len()
        invariant
            ls == views(lines@),
            ls == lines_of(out@),
            device_views(r@) == paired_devices(ls.take(i as int)),
    {
        assert(ls.take(i + 1).drop_last() == ls.take(i as int));
        assert(ls.take(i + 1).last() == lines@[i as int]@);
        let parts = splitn_chars(lines[i].as_slice(), 3, ' ');
        assert(views(parts@) == splitn_on(lines@[i as int]@, 3, ' '));
        if parts.len() == 3 {
            assert(views(parts@)[0] == parts@[0]@);
            assert(views(parts@)[1] == parts@[1]@);
            assert(views(parts@)[2] == parts@[2]@);
            if chars_are(parts[0].as_slice(), "Device") {
                if !has_mac(&r, &parts[1]) {
                    let ghost before = r@;
                    r.push(PairedDevice { mac: string_from(&parts[1]), name: string_from(&parts[2]) });
                    assert(device_views(r@) =~= device_views(before).push((parts@[1]@, parts@[2]@)));
                }
            }
        }
    }
    assert(ls.take(lines@.len() as int) == ls);
    r
}

/// No MAC address occurs twice in the parsed device list.
pub proof fn lemma_paired_devices_distinct(lines: Seq<Seq<char>>)
    ensures
        macs(paired_devices(lines)).no_duplicates(),
    decreases lines.len(),
{
    if lines.len() > 0 {
        lemma_paired_devices_distinct(lines.drop_last());
        let d = paired_devices(lines.drop_last());
        match device_of_line(lines.last()) {
            Some((m, n)) => {
                if !macs(d).contains(m) {
                    let e = d.push((m, n));
                    assert(macs(e) =~= macs(d).push(m));
                    assert forall|a: int, b: int|
                        0 <= a < macs(e).len() && 0 <= b < macs(e).len() && a != b implies macs(e)[a]
                        != macs(e)[b] by {
                        if a < d.len() && b < d.len() {
                        } else if a < d.len() {
                            assert(macs(d)[a] == macs(e)[a]);
                        } else if b < d.len() {
                            assert(macs(d)[b] == macs(e)[b]);
                        }
                    };
                }
            },
            None => {},
        }
    }
}

/// Whether the line lists a device with address `mac`: split at its first
/// two spaces it has three parts, the first being `Device` and the second
/// `mac`.
pub open spec fn line_names_device(line: Seq<char>, mac: Seq<char>) -> bool {
    let p = splitn_on(line, 3, ' ');
    p.len() == 3 && p[0] == "Device"@ && p[1] == mac
}

/// Whether line `j` is the first of `lines` that lists the device `mac`.
pub open spec fn first_device_line(lines: Seq<Seq<char>>, j: int, mac: Seq<char>) -> bool {
    &&& 0 <= j < lines.len()
    &&& line_names_device(lines[j], mac)
    &&& forall|k: int| 0 <= k < j ==> !line_names_device(#[trigger] lines[k], mac)
}

/// No device is lost: every address that some line lists is in the list.
pub proof fn lemma_paired_devices_complete(lines: Seq<Seq<char>>, j: int, mac: Seq<char>)
    requires
        0 <= j < lines.len(),
        line_names_device(lines[j], mac),
    ensures
        macs(paired_devices(lines)).contains(mac),
    decreases lines.len(),
{
    let pre = lines.drop_last();
    let d = paired_devices(pre);
    if j < lines.len() - 1 {
        assert(pre[j] == lines[j]);
        lemma_paired_devices_complete(pre, j, mac);
    } else {
        assert(lines.last() == lines[j]);
    }
    match device_of_line(lines.last()) {
        Some((m, n)) => {
            if !macs(d).contains(m) {
                assert(macs(d.push((m, n))) =~= macs(d).push(m));
                lemma_push_contains(macs(d), m, mac);
            }
        },
        None => {},
    }
}

/// A listed device carries the name given on the first line that lists its
/// address: the rest of that line after `Device MAC `.
pub proof fn lemma_paired_device_name(lines: Seq<Seq<char>>, k: int)
    requires
        0 <= k < paired_devices(lines).len(),
    ensures
        exists|j: int|
            #[trigger] first_device_line(lines, j, paired_devices(lines)[k].0) && paired_devices(
                lines,
            )[k].1 == splitn_on(lines[j], 3, ' ')[2],
    decreases lines.len(),
{
    let pre = lines.drop_last();
    let d = paired_devices(pre);
    let l = paired_devices(lines);
    let m = l[k].0;
    if k < d.len() {
        assert(l[k] == d[k]);
        lemma_paired_device_name(pre, k);
        let j = choose|j: int|
            #[trigger] first_device_line(pre, j, d[k].0) && d[k].1 == splitn_on(pre[j], 3, ' ')[2];
        assert(pre[j] == lines[j]);
        assert forall|q: int| 0 <= q < j implies !line_names_device(#[trigger] lines[q], m) by {
            assert(pre[q] == lines[q]);
        };
        assert(first_device_line(lines, j, m));
    } else {
        let j = lines.len() - 1;
        assert(lines.last() == lines[j]);
        assert forall|q: int| 0 <= q < j implies !line_names_device(#[trigger] lines[q], m) by {
            if line_names_device(lines[q], m) {
                assert(pre[q] == lines[q]);
                lemma_paired_devices_complete(pre, q, m);
            }
        };
        assert(first_device_line(lines, j, m));
    }
}

/// The shell command that tells whether the device `mac` is connected.
pub fn device_info_command(mac: &str) -> (s: String)
    ensures
        s@ == "bluetoothctl info "@ + mac@ + " | grep 'Connected: yes'"@,
{
    let mut s = String::from_str("bluetoothctl info ");
    s.append(mac);
    s.append(" | grep 'Connected: yes'");
    s
}

/// A paired device and whether it is connected.
pub struct DeviceStatus {
    pub mac: String,
    pub name: String,
    pub connected: bool,
}

/// The row of a device: its name, and a button that disconnects it when it
/// is connected (in the danger style) and connects it otherwise.
pub open spec fn device_row(mac: Seq<char>, name: Seq<char>, connected: bool) -> RowView {
    RowView {
        label: name,
        action: action_of(connected),
        danger: connected,
        program: "bluetoothctl"@,
        args: seq![
            if connected {
                "disconnect"@
            } else {
                "connect"@
            },
            mac,
        ],
    }
}

/// What the Bluetooth popup shows.
pub open spec fn bluetooth_content(powered: bool, devices: Seq<DeviceStatus>) -> ContentView {
    if !powered {
        ContentView::Notice(BLUETOOTH_OFF_NOTICE@)
    } else if devices.len() == 0 {
        ContentView::Notice(NO_DEVICES_NOTICE@)
    } else {
        ContentView::Rows(
            devices.map_values(|d: DeviceStatus| device_row(d.mac@, d.name@, d.connected)),
        )
    }
}

/// Decides what the Bluetooth popup shows.
pub fn bluetooth_popup(powered: bool, devices: &Vec<DeviceStatus>) -> (c: PopupContent)
    ensures
        c@ == bluetooth_content(powered, devices@),
{
    if !powered {
        return PopupContent::Notice(owned(BLUETOOTH_OFF_NOTICE));
    }
    if devices.len() == 0 {
        return PopupContent::Notice(owned(NO_DEVICES_NOTICE));
    }
    let ghost want = devices@.map_values(|d: DeviceStatus| device_row(d.mac@, d.name@, d.connected));
    let mut rows: Vec<PopupRow> = Vec::new();
    for i in 0..devices.len()
        invariant
            want == devices@.map_values(|d: DeviceStatus| device_row(d.mac@, d.name@, d.connected)),
            rows@.map_values(|r: PopupRow| r@) == want.take(i as int),
    {
        let d = &devices[i];
        let verb = if d.connected {
            owned("disconnect")
        } else {
            owned("connect")
        };
        let args = vec![verb, owned(d.mac.as_str())];
        let row = PopupRow {
            label: owned(d.name.as_str()),
            action: if d.connected {
                owned("Disconnect")
            } else {
                owned("Connect")
            },
            danger: d.connected,
            program: owned("bluetoothctl"),
            args,
        };
        assert(string_views(row.args@) =~= want[i as int].args);
        assert(row@ == want[i as int]);
        let ghost before = rows@;
        rows.push(row);
        assert(rows@.map_values(|r: PopupRow| r@) =~= before.map_values(|r: PopupRow| r@).push(
            want[i as int],
        ));
        assert(want.take(i + 1) =~= want.take(i as int).push(want[i as int]));
    }
    assert(want.take(devices@.len() as int) == want);
    PopupContent::Rows(rows)
}

/// Each row of the Bluetooth popup belongs to the device at the same
/// position: it shows that device's name, its button acts on that device's
/// MAC, and the button reads `Disconnect` (in the danger style, running
/// `bluetoothctl disconnect MAC`) exactly when the device is connected, else
/// `Connect` (running `bluetoothctl connect MAC`). With Bluetooth off, or no
/// device, the popup shows the matching notice.
pub proof fn lemma_bluetooth_rows(powered: bool, devices: Seq<DeviceStatus>, i: int)
    ensures
        !powered ==> bluetooth_content(powered, devices) == ContentView::Notice(
            BLUETOOTH_OFF_NOTICE@,
        ),
        powered && devices.len() == 0 ==> bluetooth_content(powered, devices)
            == ContentView::Notice(NO_DEVICES_NOTICE@),
        powered && 0 <= i < devices.len() ==> match bluetooth_content(powered, devices) {
            ContentView::Rows(rows) => {
                &&& rows.len() == devices.len()
                &&& rows[i].label == devices[i].name@
                &&& rows[i].program == "bluetoothctl"@
                &&& rows[i].args.len() == 2
                &&& rows[i].args[1] == devices[i].mac@
                &&& rows[i].action == (if devices[i].connected {
                    "Disconnect"@
                } else {
                    "Connect"@
                })
                &&& rows[i].args[0] == (if devices[i].connected {
                    "disconnect"@
                } else {
                    "connect"@
                })
                &&& (rows[i].action == "Disconnect"@) == devices[i].connected
                &&& rows[i].danger == devices[i].connected
            },
            ContentView::Notice(_) => false,
        },
{
    reveal_strlit("Disconnect");
    reveal_strlit("Connect");
    assert("Disconnect"@.len() != "Connect"@.len());
}

/// The arguments of `bluetoothctl` that switch Bluetooth on or off.
pub fn bluetooth_power_args(on: bool) -> (a: Vec<String>)
    ensures
        string_views(a@) == seq![
            "power"@,
            if on {
                "on"@
            } else {
                "off"@
            },
        ],
{
    let v = vec![owned("power"), if on {
        owned("on")
    } else {
        owned("off")
    }];
    assert(string_views(v@) =~= seq!["power"@, if on { "on"@ } else { "off"@ }]);
    v
}


// ---------------------------------------------------------------- Wi-Fi

/// Whether `nmcli radio wifi` reports the radio on: its output, trimmed, is
/// `enabled`.
pub fn wifi_radio_enabled(out: &str) -> (b: bool)
    ensures
        b == (trim(out@) == "enabled"@),
{
    chars_are(trim_chars(chars_of(out).as_slice()).as_slice(), "enabled")
}

/// A network as `nmcli -t -f ACTIVE,SSID device wifi list` lists it.
pub struct Network {
    pub ssid: String,
    pub active: bool,
}

/// The network that a line `ACTIVE:SSID` describes: the SSID is the second
/// colon-separated field, trimmed, and the network is active when the first
/// field is `yes`.
pub open spec fn network_of_line(line: Seq<char>) -> Option<(Seq<char>, bool)> {
    let p = split_on(line, ':');
    if p.len() >= 2 {
        Some((trim(p[1]), p[0] == "yes"@))
    } else {
        None
    }
}

/// The SSIDs of a list of networks.
pub open spec fn ssids(d: Seq<(Seq<char>, bool)>) -> Seq<Seq<char>> {
    d.map_values(|x: (Seq<char>, bool)| x.0)
}

/// The networks that the lines describe, in order: a network without an
/// SSID, or with an SSID listed before, is skipped.
pub open spec fn listed_networks(lines: Seq<Seq<char>>) -> Seq<(Seq<char>, bool)>
    decreases lines.len(),
{
    if lines.len() == 0 {
        Seq::empty()
    } else {
        let d = listed_networks(lines.drop_last());
        match network_of_line(lines.last()) {
            Some((ssid, active)) => if ssid.len() > 0 && !ssids(d).contains(ssid) {
                d.push((ssid, active))
            } else {
                d
            },
            None => d,
        }
    }
}

/// The networks as (SSID, active) pairs.
pub open spec fn network_views(d: Seq<Network>) -> Seq<(Seq<char>, bool)> {
    d.map_values(|x: Network| (x.ssid@, x.active))
}

/// Whether `ssid` is the SSID of one of `d`.
fn has_ssid(d: &Vec<Network>, ssid: &Vec<char>) -> (r: bool)
    ensures
        r == ssids(network_views(d@)).contains(ssid@),
{
    let ghost ss = ssids(network_views(d@));
    for i in 0..d.len()
        invariant
            ss == ssids(network_views(d@)),
            forall|j: int| 0 <= j < i ==> ss[j] != ssid@,
    {
        let sv = chars_of(d[i].ssid.as_str());
        assert(ss[i as int] == sv@);
        if same_chars(sv.as_slice(), ssid.as_slice()) {
            return true;
        }
    }
    false
}

/// The networks listed by `nmcli -t -f ACTIVE,SSID device wifi list`, each
/// SSID once.
pub fn parse_networks(out: &str) -> (r: Vec<Network>)
    ensures
        network_views(r@) == listed_networks(lines_of(out@)),
{
    let lines = split_lines(chars_of(out).as_slice());
    let ghost ls = views(lines@);
    let mut r: Vec<Network> = Vec::new();
    for i in 0..lines.len()
        invariant
            ls == views(lines@),
            ls == lines_of(out@),
            network_views(r@) == listed_networks(ls.take(i as int)),
    {
        assert(ls.take(i + 1).drop_last() == ls.take(i as int));
        assert(ls.take(i + 1).last() == lines@[i as int]@);
        let parts = split_chars(lines[i].as_slice(), ':');
        assert(views(parts@) == split_on(lines@[i as int]@, ':'));
        if parts.len() >= 2 {
            assert(views(parts@)[0] == parts@[0]@);
            assert(views(parts@)[1] == parts@[1]@);
            let active = chars_are(parts[0].as_slice(), "yes");
            let ssid = trim_chars(parts[1].as_slice());
            if ssid.len() > 0 && !has_ssid(&r, &ssid) {
                let ghost before = r@;
                r.push(Network { ssid: string_from(&ssid), active });
                assert(network_views(r@) =~= network_views(before).push((ssid@, active)));
            }
        }
    }
    assert(ls.take(lines@.len() as int) == ls);
    r
}

/// Every network listed has an SSID, and no SSID is listed twice.
pub proof fn lemma_listed_networks_distinct(lines: Seq<Seq<char>>)
    ensures
        ssids(listed_networks(lines)).no_duplicates(),
        forall|i: int|
            0 <= i < listed_networks(lines).len() ==> #[trigger] listed_networks(lines)[i].0.len()
                > 0,
    decreases lines.len(),
{
    if lines.len() > 0 {
        lemma_listed_networks_distinct(lines.drop_last());
        let d = listed_networks(lines.drop_last());
        match network_of_line(lines.last()) {
            Some((ssid, active)) => {
                if ssid.len() > 0 && !ssids(d).contains(ssid) {
                    let e = d.push((ssid, active));
                    assert(ssids(e) =~= ssids(d).push(ssid));
                    assert forall|a: int, b: int|
                        0 <= a < ssids(e).len() && 0 <= b < ssids(e).len() && a != b implies ssids(
                        e,
                    )[a] != ssids(e)[b] by {
                        if a < d.len() && b < d.len() {
                        } else if a < d.len() {
                            assert(ssids(d)[a] == ssids(e)[a]);
                        } else if b < d.len() {
                            assert(ssids(d)[b] == ssids(e)[b]);
                        }
                    };
                    assert forall|i: int| 0 <= i < e.len() implies #[trigger] e[i].0.len() > 0 by {
                        if i < d.len() {
                            assert(e[i] == d[i]);
                        }
                    };
                }
            },
            None => {},
        }
    }
}

/// Whether the line lists the network `ssid`: it has a second
/// colon-separated field, and that field, trimmed, is `ssid`.
pub open spec fn line_lists(line: Seq<char>, ssid: Seq<char>) -> bool {
    split_on(line, ':').len() >= 2 && trim(split_on(line, ':')[1]) == ssid
}

/// Whether line `j` is the first of `lines` that lists `ssid`.
pub open spec fn first_listing(lines: Seq<Seq<char>>, j: int, ssid: Seq<char>) -> bool {
    &&& 0 <= j < lines.len()
    &&& line_lists(lines[j], ssid)
    &&& forall|k: int| 0 <= k < j ==> !line_lists(#[trigger] lines[k], ssid)
}

/// Appending to a sequence keeps what it held and adds the new item.
proof fn lemma_push_contains(s: Seq<Seq<char>>, x: Seq<char>, y: Seq<char>)
    ensures
        s.push(x).contains(x),
        s.contains(y) ==> s.push(x).contains(y),
{
    assert(s.push(x)[s.len() as int] == x);
    if s.contains(y) {
        let k = choose|k: int| 0 <= k < s.len() && s[k] == y;
        assert(s.push(x)[k] == y);
    }
}

/// No network is lost: every SSID that some line lists, when it is not
/// empty, is in the list.
pub proof fn lemma_listed_networks_complete(lines: Seq<Seq<char>>, j: int, ssid: Seq<char>)
    requires
        0 <= j < lines.len(),
        line_lists(lines[j], ssid),
        ssid.len() > 0,
    ensures
        ssids(listed_networks(lines)).contains(ssid),
    decreases lines.len(),
{
    let pre = lines.drop_last();
    let d = listed_networks(pre);
    if j < lines.len() - 1 {
        assert(pre[j] == lines[j]);
        lemma_listed_networks_complete(pre, j, ssid);
    } else {
        assert(lines.last() == lines[j]);
    }
    match network_of_line(lines.last()) {
        Some((s2, a)) => {
            if s2.len() > 0 && !ssids(d).contains(s2) {
                assert(ssids(d.push((s2, a))) =~= ssids(d).push(s2));
                lemma_push_contains(ssids(d), s2, ssid);
            }
        },
        None => {},
    }
}

/// A listed network is active exactly when the first field of the first
/// line that lists its SSID is `yes`.
pub proof fn lemma_listed_network_active(lines: Seq<Seq<char>>, k: int)
    requires
        0 <= k < listed_networks(lines).len(),
    ensures
        exists|j: int|
            #[trigger] first_listing(lines, j, listed_networks(lines)[k].0) && listed_networks(
                lines,
            )[k].1 == (split_on(lines[j], ':')[0] == "yes"@),
    decreases lines.len(),
{
    let pre = lines.drop_last();
    let d = listed_networks(pre);
    let l = listed_networks(lines);
    let s = l[k].0;
    if k < d.len() {
        assert(l[k] == d[k]);
        lemma_listed_network_active(pre, k);
        let j = choose|j: int|
            #[trigger] first_listing(pre, j, d[k].0) && d[k].1 == (split_on(pre[j], ':')[0]
                == "yes"@);
        assert(pre[j] == lines[j]);
        assert forall|m: int| 0 <= m < j implies !line_lists(#[trigger] lines[m], s) by {
            assert(pre[m] == lines[m]);
        };
        assert(first_listing(lines, j, s));
    } else {
        let j = lines.len() - 1;
        assert(lines.last() == lines[j]);
        assert forall|m: int| 0 <= m < j implies !line_lists(#[trigger] lines[m], s) by {
            if line_lists(lines[m], s) {
                assert(pre[m] == lines[m]);
                lemma_listed_networks_complete(pre, m, s);
            }
        };
        assert(first_listing(lines, j, s));
    }
}

/// The row of a network: its SSID, and a button that takes the connection
/// down when the network is active (in the danger style) and connects to
/// it otherwise.
pub open spec fn network_row(ssid: Seq<char>, active: bool) -> RowView {
    RowView {
        label: ssid,
        action: action_of(active),
        danger: active,
        program: "nmcli"@,
        args: if active {
            seq!["connection"@, "down"@, "id"@, ssid]
        } else {
            seq!["device"@, "wifi"@, "connect"@, ssid]
        },
    }
}

/// What the Wi-Fi popup shows.
pub open spec fn wifi_content(enabled: bool, networks: Seq<Network>) -> ContentView {
    if !enabled {
        ContentView::Notice(WIFI_OFF_NOTICE@)
    } else if networks.len() == 0 {
        ContentView::Notice(NO_NETWORKS_NOTICE@)
    } else {
        ContentView::Rows(networks.map_values(|n: Network| network_row(n.ssid@, n.active)))
    }
}

/// Decides what the Wi-Fi popup shows.
pub fn wifi_popup(enabled: bool, networks: &Vec<Network>) -> (c: PopupContent)
    ensures
        c@ == wifi_content(enabled, networks@),
{
    if !enabled {
        return PopupContent::Notice(owned(WIFI_OFF_NOTICE));
    }
    if networks.len() == 0 {
        return PopupContent::Notice(owned(NO_NETWORKS_NOTICE));
    }
    let ghost want = networks@.map_values(|n: Network| network_row(n.ssid@, n.active));
    let mut rows: Vec<PopupRow> = Vec::new();
    for i in 0..networks.len()
        invariant
            want == networks@.map_values(|n: Network| network_row(n.ssid@, n.active)),
            rows@.map_values(|r: PopupRow| r@) == want.take(i as int),
    {
        let n = &networks[i];
        let args = if n.active {
            vec![owned("connection"), owned("down"), owned("id"), owned(n.ssid.as_str())]
        } else {
            vec![owned("device"), owned("wifi"), owned("connect"), owned(n.ssid.as_str())]
        };
        let row = PopupRow {
            label: owned(n.ssid.as_str()),
            action: if n.active {
                owned("Disconnect")
            } else {
                owned("Connect")
            },
            danger: n.active,
            program: owned("nmcli"),
            args,
        };
        assert(string_views(row.args@) =~= want[i as int].args);
        assert(row@ == want[i as int]);
        let ghost before = rows@;
        rows.push(row);
        assert(rows@.map_values(|r: PopupRow| r@) =~= before.map_values(|r: PopupRow| r@).push(
            want[i as int],
        ));
        assert(want.take(i + 1) =~= want.take(i as int).push(want[i as int]));
    }
    assert(want.take(networks@.len() as int) == want);
    PopupContent::Rows(rows)
}

/// Each row of the Wi-Fi popup belongs to the network at the same position:
/// it shows that network's SSID, and its button reads `Disconnect` (in the
/// danger style, running `nmcli connection down id SSID`) exactly when the
/// network is active, else `Connect` (running `nmcli device wifi connect
/// SSID`). With the radio off, or no network, the popup shows the matching
/// notice.
pub proof fn lemma_wifi_rows(enabled: bool, networks: Seq<Network>, i: int)
    ensures
        !enabled ==> wifi_content(enabled, networks) == ContentView::Notice(WIFI_OFF_NOTICE@),
        enabled && networks.len() == 0 ==> wifi_content(enabled, networks) == ContentView::Notice(
            NO_NETWORKS_NOTICE@,
        ),
        enabled && 0 <= i < networks.len() ==> match wifi_content(enabled, networks) {
            ContentView::Rows(rows) => {
                &&& rows.len() == networks.len()
                &&& rows[i].label == networks[i].ssid@
                &&& rows[i].program == "nmcli"@
                &&& rows[i].action == (if networks[i].active {
                    "Disconnect"@
                } else {
                    "Connect"@
                })
                &&& (rows[i].action == "Disconnect"@) == networks[i].active
                &&& rows[i].danger == networks[i].active
                &&& rows[i].args == (if networks[i].active {
                    seq!["connection"@, "down"@, "id"@, networks[i].ssid@]
                } else {
                    seq!["device"@, "wifi"@, "connect"@, networks[i].ssid@]
                })
            },
            ContentView::Notice(_) => false,
        },
{
    reveal_strlit("Disconnect");
    reveal_strlit("Connect");
    assert("Disconnect"@.len() != "Connect"@.len());
}

/// The arguments of `nmcli` that switch the Wi-Fi radio on or off.
pub fn wifi_radio_args(on: bool) -> (a: Vec<String>)
    ensures
        string_views(a@) == seq![
            "radio"@,
            "wifi"@,
            if on {
                "on"@
            } else {
                "off"@
            },
        ],
{
    let v = vec![owned("radio"), owned("wifi"), if on {
        owned("on")
    } else {
        owned("off")
    }];
    assert(string_views(v@) =~= seq!["radio"@, "wifi"@, if on { "on"@ } else { "off"@ }]);
    v
}

} // verus!
