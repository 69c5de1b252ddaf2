use nightbar::battery::{battery_label, highlighted_profile, BatteryFiles, PowerProfile, AC_LABEL};
use nightbar::clock::clock_label;
use nightbar::popups::{
    bluetooth_popup, bluetooth_power_args, device_info_command, parse_networks,
    parse_paired_devices, wifi_popup, wifi_radio_args, wifi_radio_enabled, DeviceStatus, Network,
    PopupContent, BLUETOOTH_OFF_NOTICE, NO_DEVICES_NOTICE, NO_NETWORKS_NOTICE, WIFI_OFF_NOTICE,
};
use nightbar::system::{
    battery_path, bluetooth_icon, brightness_field, network_icon, percent_arg, power_profile,
    volume_field, BLUETOOTH_CONNECTED_ICON, BLUETOOTH_OFF_ICON, BLUETOOTH_ON_ICON,
    DISCONNECTED_ICON, ETHERNET_ICON, WIFI_ICON,
};

#[test]
fn volume_field_is_the_second_word() {
    assert_eq!(volume_field("Volume: 0.45\n"), Some("0.45".to_string()));
    assert_eq!(volume_field("Volume: 0.30 [MUTED]\n"), Some("0.30".to_string()));
    assert_eq!(volume_field("Volume:"), None);
    assert_eq!(volume_field(""), None);
}

#[test]
fn brightness_field_is_the_fourth_field() {
    assert_eq!(
        brightness_field("intel_backlight,backlight,12000,50%,24000\n"),
        Some("50".to_string())
    );
    assert_eq!(brightness_field("a,b,c,7%%"), Some("7".to_string()));
    assert_eq!(brightness_field("a,b,c"), None);
    assert_eq!(brightness_field(""), None);
}

#[test]
fn percent_arguments() {
    assert_eq!(percent_arg(0), "0%");
    assert_eq!(percent_arg(45), "45%");
    assert_eq!(percent_arg(100), "100%");
}

#[test]
fn first_battery_entry() {
    let names = vec!["AC".to_string(), "BAT1".to_string(), "BAT0".to_string()];
    assert_eq!(battery_path(&names), Some("/sys/class/power_supply/BAT1".to_string()));
    let none = vec!["AC".to_string(), "ucsi-source-psy-USBC000:001".to_string(), "BA".to_string()];
    assert_eq!(battery_path(&none), None);
    assert_eq!(battery_path(&vec![]), None);
}

#[test]
fn bluetooth_icons() {
    assert_eq!(bluetooth_icon(false, true), BLUETOOTH_OFF_ICON);
    assert_eq!(bluetooth_icon(false, false), "\u{f00b2}");
    assert_eq!(bluetooth_icon(true, true), BLUETOOTH_CONNECTED_ICON);
    assert_eq!(bluetooth_icon(true, false), BLUETOOTH_ON_ICON);
}

#[test]
fn power_profile_read() {
    assert_eq!(power_profile(Some("performance\n")), "performance");
    assert_eq!(power_profile(Some("  power-saver  ")), "power-saver");
    assert_eq!(power_profile(Some("")), "");
    assert_eq!(power_profile(None), "balanced");
}

#[test]
fn network_icons() {
    let wifi = "loopback:connected (externally)\nwifi:connected\nethernet:unavailable\n";
    assert_eq!(network_icon(Some(wifi)), WIFI_ICON);
    let wired = "ethernet:connected\nwifi:connected\n";
    assert_eq!(network_icon(Some(wired)), ETHERNET_ICON);
    let none = "wifi:disconnected\nethernet:unavailable\nlo:connected\n";
    assert_eq!(network_icon(Some(none)), DISCONNECTED_ICON);
    assert_eq!(network_icon(Some("")), DISCONNECTED_ICON);
    assert_eq!(network_icon(None), "\u{f092d}");
    assert_eq!(network_icon(Some("wifi:connected:extra\r\n")), WIFI_ICON);
}

#[test]
fn battery_labels() {
    let ac = battery_label(&None);
    assert_eq!(ac.text, AC_LABEL);
    assert!(!ac.charging);

    let charging = battery_label(&Some(BatteryFiles {
        capacity: Some("87\n".to_string()),
        status: Some("Charging\n".to_string()),
    }));
    assert_eq!(charging.text, "\u{26a1} 87%");
    assert!(charging.charging);

    let full = battery_label(&Some(BatteryFiles {
        capacity: Some("100\n".to_string()),
        status: Some("Full\n".to_string()),
    }));
    assert_eq!(full.text, "\u{26a1} 100%");
    assert!(full.charging);

    let discharging = battery_label(&Some(BatteryFiles {
        capacity: Some(" 42 ".to_string()),
        status: Some("Discharging\n".to_string()),
    }));
    assert_eq!(discharging.text, "42%");
    assert!(!discharging.charging);

    let unreadable = battery_label(&Some(BatteryFiles { capacity: None, status: None }));
    assert_eq!(unreadable.text, "100%");
    assert!(!unreadable.charging);
}

#[test]
fn profile_names_round_trip() {
    for p in PowerProfile::all() {
        assert_eq!(PowerProfile::from_name(p.name()), Some(p));
    }
    assert_eq!(PowerProfile::Performance.name(), "performance");
    assert_eq!(PowerProfile::PowerSaver.name(), "power-saver");
    assert_eq!(PowerProfile::Balanced.label(), "\u{f24e} Balanced");
    assert_eq!(PowerProfile::from_name("turbo"), None);
    assert_eq!(PowerProfile::from_name("balanced\n"), None);
}

#[test]
fn highlighted_profile_follows_the_newest() {
    let none: Vec<String> = vec![];
    assert_eq!(highlighted_profile(&none, Some(PowerProfile::Balanced)), Some(PowerProfile::Balanced));
    let got = vec!["balanced".to_string(), "performance".to_string()];
    assert_eq!(highlighted_profile(&got, None), Some(PowerProfile::Performance));
    let unknown = vec!["performance".to_string(), "".to_string()];
    assert_eq!(highlighted_profile(&unknown, Some(PowerProfile::Balanced)), None);
}

#[test]
fn clock_labels() {
    assert_eq!(clock_label(0, 5), "12:05 AM");
    assert_eq!(clock_label(9, 30), "09:30 AM");
    assert_eq!(clock_label(12, 0), "12:00 PM");
    assert_eq!(clock_label(13, 7), "01:07 PM");
    assert_eq!(clock_label(23, 59), "11:59 PM");
}

#[test]
fn paired_devices_are_listed_once() {
    let out = "Device AA:BB:CC:DD:EE:01 Headphones Pro\nController 11:22 host\nDevice AA:BB:CC:DD:EE:02 Mouse\nDevice AA:BB:CC:DD:EE:01 Again\nDevice lonely\n";
    let d = parse_paired_devices(out);
    assert_eq!(d.len(), 2);
    assert_eq!(d[0].mac, "AA:BB:CC:DD:EE:01");
    assert_eq!(d[0].name, "Headphones Pro");
    assert_eq!(d[1].mac, "AA:BB:CC:DD:EE:02");
    assert_eq!(d[1].name, "Mouse");
    assert!(parse_paired_devices("").is_empty());
}

#[test]
fn device_query_command() {
    assert_eq!(
        device_info_command("AA:BB"),
        "bluetoothctl info AA:BB | grep 'Connected: yes'"
    );
}

fn notice(c: &PopupContent) -> Option<String> {
    match c {
        PopupContent::Notice(s) => Some(s.clone()),
        PopupContent::Rows(_) => None,
    }
}

#[test]
fn bluetooth_popup_contents() {
    let devices = vec![
        DeviceStatus { mac: "AA".to_string(), name: "Phone".to_string(), connected: true },
        DeviceStatus { mac: "BB".to_string(), name: "Mouse".to_string(), connected: false },
    ];
    assert_eq!(notice(&bluetooth_popup(false, &devices)), Some(BLUETOOTH_OFF_NOTICE.to_string()));
    assert_eq!(notice(&bluetooth_popup(true, &vec![])), Some(NO_DEVICES_NOTICE.to_string()));
    match bluetooth_popup(true, &devices) {
        PopupContent::Rows(rows) => {
            assert_eq!(rows.len(), 2);
            assert_eq!(rows[0].label, "Phone");
            assert_eq!(rows[0].action, "Disconnect");
            assert!(rows[0].danger);
            assert_eq!(rows[0].program, "bluetoothctl");
            assert_eq!(rows[0].args, vec!["disconnect".to_string(), "AA".to_string()]);
            assert_eq!(rows[1].action, "Connect");
            assert!(!rows[1].danger);
            assert_eq!(rows[1].args, vec!["connect".to_string(), "BB".to_string()]);
        }
        PopupContent::Notice(_) => panic!("expected rows"),
    }
    assert_eq!(bluetooth_power_args(true), vec!["power".to_string(), "on".to_string()]);
    assert_eq!(bluetooth_power_args(false), vec!["power".to_string(), "off".to_string()]);
}

#[test]
fn wifi_radio_state() {
    assert!(wifi_radio_enabled("enabled\n"));
    assert!(!wifi_radio_enabled("disabled\n"));
    assert!(!wifi_radio_enabled(""));
}

#[test]
fn networks_are_listed_once() {
    let out = "yes:Home\nno:Cafe\nno:\nno:Home\nno: Library \nbroken\n";
    let n = parse_networks(out);
    let got: Vec<(String, bool)> = n.iter().map(|x| (x.ssid.clone(), x.active)).collect();
    assert_eq!(
        got,
        vec![
            ("Home".to_string(), true),
            ("Cafe".to_string(), false),
            ("Library".to_string(), false),
        ]
    );
}

#[test]
fn wifi_popup_contents() {
    let nets = vec![
        Network { ssid: "Home".to_string(), active: true },
        Network { ssid: "Cafe".to_string(), active: false },
    ];
    assert_eq!(notice(&wifi_popup(false, &nets)), Some(WIFI_OFF_NOTICE.to_string()));
    assert_eq!(notice(&wifi_popup(true, &vec![])), Some(NO_NETWORKS_NOTICE.to_string()));
    match wifi_popup(true, &nets) {
        PopupContent::Rows(rows) => {
            assert_eq!(rows[0].program, "nmcli");
            assert_eq!(rows[0].action, "Disconnect");
            assert_eq!(
                rows[0].args,
                vec!["connection", "down", "id", "Home"].iter().map(|s| s.to_string()).collect::<Vec<_>>()
            );
            assert_eq!(
                rows[1].args,
                vec!["device", "wifi", "connect", "Cafe"].iter().map(|s| s.to_string()).collect::<Vec<_>>()
            );
        }
        PopupContent::Notice(_) => panic!("expected rows"),
    }
    assert_eq!(
        wifi_radio_args(false),
        vec!["radio".to_string(), "wifi".to_string(), "off".to_string()]
    );
}
