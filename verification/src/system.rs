//! What the bar reads from the system tools and files it consults, and the
//! arguments it hands to the tools it drives.

use vstd::prelude::*;
use vstd::string::*;
use crate::text::{
    chars_of, chars_are, copy_range, string_from, trim_chars, split_chars, split_words,
    split_lines, trim_end_matching, starts_with_str, views, words, split_on, lines_of, trim,
    trim_end_char,
};
use crate::numbers::{decimal, decimal_chars};

verus! {

/// The icon shown while Bluetooth is powered off.
pub const BLUETOOTH_OFF_ICON: &'static str = "\u{f00b2}";

/// The icon shown while a Bluetooth device is connected.
pub const BLUETOOTH_CONNECTED_ICON: &'static str = "\u{f00b1}";

/// The icon shown while Bluetooth is on and nothing is connected.
pub const BLUETOOTH_ON_ICON: &'static str = "\u{f00af}";

/// The icon of a connected Wi-Fi network.
pub const WIFI_ICON: &'static str = "\u{f1eb}";

/// The icon of a connected wired network.
pub const ETHERNET_ICON: &'static str = "\u{f0200}";

/// The icon shown when no network is connected.
pub const DISCONNECTED_ICON: &'static str = "\u{f092d}";

/// The power profile assumed when it cannot be read.
pub const DEFAULT_PROFILE: &'static str = "balanced";

/// The volume field of `wpctl get-volume` output (`Volume: 0.45 ...`): its
/// second whitespace-separated word.
pub open spec fn volume_field_of(out: Seq<char>) -> Option<Seq<char>> {
    if words(out).len() >= 2 {
        Some(words(out)[1])
    } else {
        None
    }
}

/// Reads the volume field of `wpctl get-volume` output.
pub fn volume_field(out: &str) -> (r: Option<String>)
    ensures
        match r {
            Some(s) => volume_field_of(out@) == Some(s@),
            None => volume_field_of(out@) is None,
        },
{
    let ws = split_words(chars_of(out).as_slice());
    if ws.len() >= 2 {
        assert(views(ws@)[1] == ws@[1]@);
        Some(string_from(&ws[1]))
    } else {
        None
    }
}

/// The brightness field of `brightnessctl -m` output
/// (`device,class,current,PERCENT%,max`): the fourth comma-separated field
/// without its trailing `%` signs.
pub open spec fn brightness_field_of(out: Seq<char>) -> Option<Seq<char>> {
    let p = split_on(out, ',');
    if p.len() >= 4 {
        Some(trim_end_char(p[3], '%'))
    } else {
        None
    }
}

/// Reads the brightness field of `brightnessctl -m` output.
pub fn brightness_field(out: &str) -> (r: Option<String>)
    ensures
        match r {
            Some(s) => brightness_field_of(out@) == Some(s@),
            None => brightness_field_of(out@) is None,
        },
{
    let parts = split_chars(chars_of(out).as_slice(), ',');
    if parts.len() >= 4 {
        assert(views(parts@)[3] == parts@[3]@);
        let field = trim_end_matching(parts[3].as_slice(), '%');
        Some(string_from(&field))
    } else {
        None
    }
}

/// The argument that sets a level in percent: the number, then `%`.
pub fn percent_arg(percent: u32) -> (s: String)
    ensures
        s@ == decimal(percent as nat) + "%"@,
{
    let mut digits = decimal_chars(percent as u64);
    let mut s = string_from(&digits);
    s.append("%");
    s
}

/// The first name of a battery (one that begins with `BAT`) among the
/// entries of the power-supply directory, in the order listed.
pub open spec fn first_battery(names: Seq<Seq<char>>) -> Option<Seq<char>>
    decreases names.len(),
{
    if names.len() == 0 {
        None
    } else if names[0].len() >= 3 && names[0].take(3) == "BAT"@ {
        Some(names[0])
    } else {
        first_battery(names.drop_first())
    }
}

/// Whether an entry of the power-supply directory names a battery: its
/// name begins with `BAT`.
pub open spec fn names_battery(name: Seq<char>) -> bool {
    name.len() >= 3 && name.take(3) == "BAT"@
}

/// The battery found is the first entry, in the order listed, whose name
/// begins with `BAT`; none is found exactly when no entry's name does.
pub proof fn lemma_first_battery(names: Seq<Seq<char>>)
    ensures
        match first_battery(names) {
            Some(n) => exists|i: int|
                0 <= i < names.len() && #[trigger] names[i] == n && names_battery(n) && forall|j: int|
                    0 <= j < i ==> !names_battery(#[trigger] names[j]),
            None => forall|i: int| 0 <= i < names.len() ==> !names_battery(#[trigger] names[i]),
        },
    decreases names.len(),
{
    if names.len() > 0 {
        let rest = names.drop_first();
        lemma_first_battery(rest);
        if names_battery(names[0]) {
            assert(names[0] == first_battery(names)->0);
        } else {
            match first_battery(rest) {
                Some(n) => {
                    let i = choose|i: int|
                        0 <= i < rest.len() && #[trigger] rest[i] == n && names_battery(n) && forall|j: int|
                            0 <= j < i ==> !names_battery(#[trigger] rest[j]);
                    assert(names[i + 1] == n);
                    assert forall|j: int| 0 <= j < i + 1 implies !names_battery(#[trigger] names[j]) by {
                        if j > 0 {
                            assert(names[j] == rest[j - 1]);
                        }
                    };
                },
                None => {
                    assert forall|i: int| 0 <= i < names.len() implies !names_battery(
                        #[trigger] names[i],
                    ) by {
                        if i > 0 {
                            assert(names[i] == rest[i - 1]);
                        }
                    };
                },
            }
        }
    }
}

/// The names as character sequences.
pub open spec fn name_views(names: Seq<String>) -> Seq<Seq<char>> {
    names.map_values(|n: String| n@)
}

/// The directory of the power supplies.
pub open spec fn power_supply_dir() -> Seq<char> {
    "/sys/class/power_supply/"@
}

/// The path of the first battery among the entries of
/// `/sys/class/power_supply`, in the order listed.
pub fn battery_path(names: &Vec<String>) -> (r: Option<String>)
    ensures
        match first_battery(name_views(names@)) {
            Some(n) => r is Some && r->0@ == power_supply_dir() + n,
            None => r is None,
        },
{
    let ghost nv = name_views(names@);
    let mut i: usize = 0;
    assert(nv.skip(0) == nv);
    while i < names.len()
        invariant
            i <= names@.len(),
            nv == name_views(names@),
            first_battery(nv) == first_battery(nv.skip(i as int)),
        decreases names@.len() - i,
    {
        let name = chars_of(names[i].as_str());
        proof {
            reveal_strlit("BAT");
        }
        assert(nv.skip(i as int)[0] == name@);
        if starts_with_str(name.as_slice(), "BAT") {
            assert(first_battery(nv.skip(i as int)) == Some(name@));
            let mut p = String::new();
            p.append("/sys/class/power_supply/");
            p.append(names[i].as_str());
            return Some(p);
        }
        assert(nv.skip(i as int).drop_first() == nv.skip(i + 1));
        i = i + 1;
    }
    assert(nv.skip(i as int) =~= Seq::<Seq<char>>::empty());
    None
}

/// The Bluetooth icon: off when not powered, else connected when a device is
/// connected, else on.
pub fn bluetooth_icon(powered: bool, device_connected: bool) -> (s: String)
    ensures
        s@ == (if !powered {
            BLUETOOTH_OFF_ICON@
        } else if device_connected {
            BLUETOOTH_CONNECTED_ICON@
        } else {
            BLUETOOTH_ON_ICON@
        }),
{
    if !powered {
        String::from_str(BLUETOOTH_OFF_ICON)
    } else if device_connected {
        String::from_str(BLUETOOTH_CONNECTED_ICON)
    } else {
        String::from_str(BLUETOOTH_ON_ICON)
    }
}

/// The power profile: the output of `powerprofilesctl get`, trimmed, or
/// `balanced` when the command could not be run.
pub fn power_profile(output: Option<&str>) -> (s: String)
    ensures
        s@ == match output {
            Some(o) => trim(o@),
            None => DEFAULT_PROFILE@,
        },
{
    match output {
        Some(o) => string_from(&trim_chars(chars_of(o).as_slice())),
        None => String::from_str(DEFAULT_PROFILE),
    }
}

/// The icon that a line `TYPE:STATE` of `nmcli -t -f TYPE,STATE dev` calls
/// for: Wi-Fi or wired for a connected device of that type.
pub open spec fn line_icon(line: Seq<char>) -> Option<Seq<char>> {
    let p = split_on(line, ':');
    if p.len() >= 2 && p[1] == "connected"@ {
        if p[0] == "wifi"@ {
            Some(WIFI_ICON@)
        } else if p[0] == "ethernet"@ {
            Some(ETHERNET_ICON@)
        } else {
            None
        }
    } else {
        None
    }
}

/// The icon of the first line that calls for one.
pub open spec fn first_line_icon(lines: Seq<Seq<char>>) -> Option<Seq<char>>
    decreases lines.len(),
{
    if lines.len() == 0 {
        None
    } else {
        match line_icon(lines[0]) {
            Some(i) => Some(i),
            None => first_line_icon(lines.drop_first()),
        }
    }
}

/// Whether the line reports a connected device of type `kind`: its fields
/// are `kind` and `connected`, in that order.
pub open spec fn connected_as(line: Seq<char>, kind: Seq<char>) -> bool {
    split_on(line, ':').len() >= 2 && split_on(line, ':')[0] == kind && split_on(line, ':')[1]
        == "connected"@
}

/// The icon chosen is that of the first connected Wi-Fi or wired device, in
/// the order listed: the Wi-Fi icon for a Wi-Fi device, the wired icon for a
/// wired one; there is none exactly when no Wi-Fi or wired device is
/// connected.
pub proof fn lemma_first_line_icon(lines: Seq<Seq<char>>)
    ensures
        match first_line_icon(lines) {
            Some(icon) => exists|i: int|
                0 <= i < lines.len() && ((connected_as(#[trigger] lines[i], "wifi"@) && icon
                    == WIFI_ICON@) || (!connected_as(lines[i], "wifi"@) && connected_as(
                    lines[i],
                    "ethernet"@,
                ) && icon == ETHERNET_ICON@)) && forall|j: int|
                    0 <= j < i ==> !connected_as(#[trigger] lines[j], "wifi"@) && !connected_as(
                        lines[j],
                        "ethernet"@,
                    ),
            None => forall|i: int|
                0 <= i < lines.len() ==> !connected_as(#[trigger] lines[i], "wifi"@)
                    && !connected_as(lines[i], "ethernet"@),
        },
    decreases lines.len(),
{
    if lines.len() > 0 {
        let rest = lines.drop_first();
        lemma_first_line_icon(rest);
        match line_icon(lines[0]) {
            Some(icon) => {
                assert(lines[0] == lines[0]);
            },
            None => {
                match first_line_icon(rest) {
                    Some(icon) => {
                        let i = choose|i: int|
                            0 <= i < rest.len() && ((connected_as(#[trigger] rest[i], "wifi"@)
                                && icon == WIFI_ICON@) || (!connected_as(rest[i], "wifi"@)
                                && connected_as(rest[i], "ethernet"@) && icon == ETHERNET_ICON@))
                                && forall|j: int|
                                0 <= j < i ==> !connected_as(#[trigger] rest[j], "wifi"@)
                                    && !connected_as(rest[j], "ethernet"@);
                        assert(lines[i + 1] == rest[i]);
                        assert forall|j: int| 0 <= j < i + 1 implies !connected_as(
                            #[trigger] lines[j],
                            "wifi"@,
                        ) && !connected_as(lines[j], "ethernet"@) by {
                            if j > 0 {
                                assert(lines[j] == rest[j - 1]);
                            }
                        };
                    },
                    None => {
                        assert forall|i: int| 0 <= i < lines.len() implies !connected_as(
                            #[trigger] lines[i],
                            "wifi"@,
                        ) && !connected_as(lines[i], "ethernet"@) by {
                            if i > 0 {
                                assert(lines[i] == rest[i - 1]);
                            }
                        };
                    },
                }
            },
        }
    }
}

/// The network icon for the output of `nmcli -t -f TYPE,STATE dev`: that of
/// the first connected Wi-Fi or wired device, else disconnected (also when
/// the command could not be run).
pub open spec fn network_icon_of(output: Option<Seq<char>>) -> Seq<char> {
    match output {
        Some(o) => match first_line_icon(lines_of(o)) {
            Some(i) => i,
            None => DISCONNECTED_ICON@,
        },
        None => DISCONNECTED_ICON@,
    }
}

/// The network icon for the output of `nmcli -t -f TYPE,STATE dev`.
pub fn network_icon(output: Option<&str>) -> (s: String)
    ensures
        s@ == network_icon_of(
            match output {
                Some(o) => Some(o@),
                None => None,
            },
        ),
{
    match output {
        None => String::from_str(DISCONNECTED_ICON),
        Some(o) => {
            let lines = split_lines(chars_of(o).as_slice());
            let ghost ls = views(lines@);
            let mut i: usize = 0;
            assert(ls.skip(0) == ls);
            while i < lines.len()
                invariant
                    i <= lines@.len(),
                    ls == views(lines@),
                    ls == lines_of(o@),
                    output == Some(o),
                    first_line_icon(ls) == first_line_icon(ls.skip(i as int)),
                decreases lines@.len() - i,
            {
                let parts = split_chars(lines[i].as_slice(), ':');
                assert(views(parts@) == split_on(lines@[i as int]@, ':'));
                assert(ls.skip(i as int)[0] == lines@[i as int]@);
                if parts.len() >= 2 {
                    assert(views(parts@)[0] == parts@[0]@);
                    assert(views(parts@)[1] == parts@[1]@);
                    if chars_are(parts[1].as_slice(), "connected") {
                        assert(line_icon(lines@[i as int]@) == (if parts@[0]@ == "wifi"@ {
                            Some(WIFI_ICON@)
                        } else if parts@[0]@ == "ethernet"@ {
                            Some(ETHERNET_ICON@)
                        } else {
                            None
                        }));
                        if chars_are(parts[0].as_slice(), "wifi") {
                            assert(first_line_icon(ls.skip(i as int)) == Some(WIFI_ICON@));
                            return String::from_str(WIFI_ICON);
                        }
                        if chars_are(parts[0].as_slice(), "ethernet") {
                            assert(first_line_icon(ls.skip(i as int)) == Some(ETHERNET_ICON@));
                            return String::from_str(ETHERNET_ICON);
                        }
                    }
                }
                assert(ls.skip(i as int).drop_first() == ls.skip(i + 1));
                i = i + 1;
            }
            assert(ls.skip(i as int) =~= Seq::<Seq<char>>::empty());
            String::from_str(DISCONNECTED_ICON)
        },
    }
}

} // verus!
