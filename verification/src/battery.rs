//! The battery pill: its label, and the power-profile buttons of its popup.

use vstd::prelude::*;
use vstd::string::*;
use crate::text::{chars_of, chars_are, string_from, trim_chars, trim};

verus! {

/// The label shown when no battery is found (mains power).
pub const AC_LABEL: &'static str = "\u{f1e6} AC";

/// What precedes the charge while the battery charges.
pub const CHARGING_MARK: &'static str = "\u{26a1} ";

/// The charge assumed when it cannot be read.
pub const DEFAULT_CAPACITY: &'static str = "100";

/// The status assumed when it cannot be read.
pub const DEFAULT_STATUS: &'static str = "Unknown";

/// The contents of a battery's `capacity` and `status` files, each `None`
/// when it could not be read.
pub struct BatteryFiles {
    pub capacity: Option<String>,
    pub status: Option<String>,
}

/// The text of the pill, and whether it shows the charging style.
pub struct BatteryLabel {
    pub text: String,
    pub charging: bool,
}

/// The contents of a file, or `default` when it could not be read.
pub open spec fn or_default(f: Option<String>, default: Seq<char>) -> Seq<char> {
    match f {
        Some(s) => s@,
        None => default,
    }
}

/// Whether a battery status means the battery is on the charger.
pub open spec fn is_charging(status: Seq<char>) -> bool {
    trim(status) == "Charging"@ || trim(status) == "Full"@
}

/// The pill's text for a battery: the trimmed charge and `%`, after the
/// charging mark when it charges.
pub open spec fn battery_text(capacity: Seq<char>, status: Seq<char>) -> Seq<char> {
    if is_charging(status) {
        CHARGING_MARK@ + trim(capacity) + "%"@
    } else {
        trim(capacity) + "%"@
    }
}

/// The pill reads the trimmed charge followed by `%`, after the charging
/// mark exactly when the trimmed status is `Charging` or `Full`.
pub proof fn lemma_battery_text(capacity: Seq<char>, status: Seq<char>)
    ensures
        is_charging(status) == (trim(status) == "Charging"@ || trim(status) == "Full"@),
        battery_text(capacity, status) == (if trim(status) == "Charging"@ || trim(status)
            == "Full"@ {
            "\u{26a1} "@
        } else {
            Seq::<char>::empty()
        }) + trim(capacity) + "%"@,
{
    reveal_strlit("\u{26a1} ");
    assert(Seq::<char>::empty() + trim(capacity) =~= trim(capacity));
}

/// The pill for the battery read (`None`: no battery found).
pub fn battery_label(battery: &Option<BatteryFiles>) -> (l: BatteryLabel)
    ensures
        match battery {
            None => l.text@ == AC_LABEL@ && !l.charging,
            Some(f) => {
                let cap = or_default(f.capacity, DEFAULT_CAPACITY@);
                let status = or_default(f.status, DEFAULT_STATUS@);
                &&& l.charging == is_charging(status)
                &&& l.text@ == battery_text(cap, status)
            },
        },
{
    match battery {
        None => BatteryLabel { text: String::from_str(AC_LABEL), charging: false },
        Some(f) => {
            let cap = match &f.capacity {
                Some(c) => chars_of(c.as_str()),
                None => chars_of(DEFAULT_CAPACITY),
            };
            let status = match &f.status {
                Some(s) => chars_of(s.as_str()),
                None => chars_of(DEFAULT_STATUS),
            };
            let st = trim_chars(status.as_slice());
            let charging = chars_are(st.as_slice(), "Charging") || chars_are(st.as_slice(), "Full");
            let mut text = if charging {
                String::from_str(CHARGING_MARK)
            } else {
                String::new()
            };
            let amount = string_from(&trim_chars(cap.as_slice()));
            text.append(amount.as_str());
            text.append("%");
            BatteryLabel { text, charging }
        },
    }
}

/// A power profile of `powerprofilesctl`.
#[derive(Clone, Copy, Debug, PartialEq, Eq, Structural)]
pub enum PowerProfile {
    Performance,
    Balanced,
    PowerSaver,
}

/// The name of a profile, as `powerprofilesctl` spells it.
pub open spec fn profile_name(p: PowerProfile) -> Seq<char> {
    match p {
        PowerProfile::Performance => "performance"@,
        PowerProfile::Balanced => "balanced"@,
        PowerProfile::PowerSaver => "power-saver"@,
    }
}

/// The profile with the given name, if any.
pub open spec fn profile_named(name: Seq<char>) -> Option<PowerProfile> {
    if name == "performance"@ {
        Some(PowerProfile::Performance)
    } else if name == "balanced"@ {
        Some(PowerProfile::Balanced)
    } else if name == "power-saver"@ {
        Some(PowerProfile::PowerSaver)
    } else {
        None
    }
}

impl PowerProfile {
    /// The profiles in the order of their buttons.
    pub fn all() -> (v: Vec<PowerProfile>)
        ensures
            v@ == seq![PowerProfile::Performance, PowerProfile::Balanced, PowerProfile::PowerSaver],
    {
        vec![PowerProfile::Performance, PowerProfile::Balanced, PowerProfile::PowerSaver]
    }

    /// The name of the profile, as `powerprofilesctl set` takes it.
    pub fn name(&self) -> (s: &'static str)
        ensures
            s@ == profile_name(*self),
    {
        match self {
            PowerProfile::Performance => "performance",
            PowerProfile::Balanced => "balanced",
            PowerProfile::PowerSaver => "power-saver",
        }
    }

    /// The label of the profile's button.
    pub fn label(&self) -> (s: &'static str)
        ensures
            s@ == match *self {
                PowerProfile::Performance => "\u{f0e7} Performance"@,
                PowerProfile::Balanced => "\u{f24e} Balanced"@,
                PowerProfile::PowerSaver => "\u{f06c} Power Saver"@,
            },
    {
        match self {
            PowerProfile::Performance => "\u{f0e7} Performance",
            PowerProfile::Balanced => "\u{f24e} Balanced",
            PowerProfile::PowerSaver => "\u{f06c} Power Saver",
        }
    }

    /// The profile that `powerprofilesctl get` names.
    pub fn from_name(name: &str) -> (p: Option<PowerProfile>)
        ensures
            p == profile_named(name@),
    {
        let v = chars_of(name);
        if chars_are(v.as_slice(), "performance") {
            Some(PowerProfile::Performance)
        } else if chars_are(v.as_slice(), "balanced") {
            Some(PowerProfile::Balanced)
        } else if chars_are(v.as_slice(), "power-saver") {
            Some(PowerProfile::PowerSaver)
        } else {
            None
        }
    }
}

/// The highlighted profile button after the profiles received since the last
/// look (oldest first): unchanged when none came, else the button of the
/// newest one (none when it names no known profile).
pub open spec fn highlight_after(received: Seq<Seq<char>>, current: Option<PowerProfile>) -> Option<PowerProfile> {
    if received.len() == 0 {
        current
    } else {
        profile_named(received.last())
    }
}

/// Decides the highlighted profile button from the profiles received.
pub fn highlighted_profile(received: &Vec<String>, current: Option<PowerProfile>) -> (p: Option<PowerProfile>)
    ensures
        p == highlight_after(received@.map_values(|s: String| s@), current),
{
    let n = received.len();
    if n == 0 {
        current
    } else {
        let last = &received[n - 1];
        assert(received@.map_values(|s: String| s@).last() == last@);
        PowerProfile::from_name(last.as_str())
    }
}

/// The highlighted button follows the newest profile received: with nothing
/// received it stays as it was; otherwise a button is highlighted exactly
/// when the newest name is one of the three profile names, and it is the
/// button whose profile has that name.
pub proof fn lemma_highlight_follows_newest(received: Seq<Seq<char>>, current: Option<PowerProfile>)
    ensures
        received.len() == 0 ==> highlight_after(received, current) == current,
        received.len() > 0 ==> (highlight_after(received, current) is Some <==> (received.last()
            == "performance"@ || received.last() == "balanced"@ || received.last()
            == "power-saver"@)),
        received.len() > 0 ==> (highlight_after(received, current) matches Some(p) ==> profile_name(
            p,
        ) == received.last()),
{
}

/// Reading back a profile's name gives the profile, and different profiles
/// have different names.
pub proof fn lemma_profile_name_roundtrip(p: PowerProfile, q: PowerProfile)
    ensures
        profile_named(profile_name(p)) == Some(p),
        p != q ==> profile_name(p) != profile_name(q),
{
    reveal_strlit("performance");
    reveal_strlit("balanced");
    reveal_strlit("power-saver");
    assert("performance"@ != "balanced"@) by {
        assert("performance"@.len() != "balanced"@.len());
    };
    assert("performance"@ != "power-saver"@) by {
        assert("performance"@[1] != "power-saver"@[1]);
    };
    assert("balanced"@ != "power-saver"@) by {
        assert("balanced"@.len() != "power-saver"@.len());
    };
}

} // verus!
