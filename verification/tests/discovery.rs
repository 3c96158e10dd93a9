use csi_webserver::serial::ports::{
    detect_esp_ports, device_id, sanitize_id, scan_ports, PortInfo, UsbPort,
};
use csi_webserver::serial::supervisor::{run_supervisor, spawn_device, SupervisorAction, DEBOUNCE};
use csi_webserver::serial::ports::PortCandidate;
use csi_webserver::state::DeviceRegistry;

fn usb(name: &str, vid: u16, serial: Option<&str>) -> PortInfo {
    PortInfo {
        port_name: name.to_string(),
        usb: Some(UsbPort { vid, serial_number: serial.map(str::to_string) }),
    }
}

fn plain(name: &str) -> PortInfo {
    PortInfo { port_name: name.to_string(), usb: None }
}

fn pairs(v: &[(&str, &str)]) -> Vec<(String, String)> {
    v.iter().map(|(a, b)| (a.to_string(), b.to_string())).collect()
}

#[test]
fn a_pinned_port_stands_alone() {
    let ports = vec![usb("/dev/ttyUSB0", 0x10C4, None)];
    assert_eq!(detect_esp_ports(&Some("/dev/foo".to_string()), &ports), vec!["/dev/foo"]);
}

#[test]
fn ports_are_picked_by_name_or_vendor_and_sorted() {
    let ports = vec![
        usb("/dev/ttyUSB1", 0x0403, None),
        usb("COM7", 0x1A86, None),
        plain("/dev/ttyS0"),
        usb("/dev/cu.usbmodem101", 0x1111, None),
        usb("/dev/other", 0x2222, None),
        usb("/dev/ttyACM0", 0x303A, None),
        plain("/dev/ttyUSB9"),
    ];
    assert_eq!(
        detect_esp_ports(&None, &ports),
        vec!["/dev/cu.usbmodem101", "/dev/ttyACM0", "/dev/ttyUSB1", "COM7"]
    );
}

#[test]
fn the_listing_order_does_not_matter() {
    let there = vec![usb("/dev/ttyUSB1", 0, None), usb("/dev/ttyACM0", 0, None), plain("x")];
    let back = vec![plain("x"), usb("/dev/ttyACM0", 0, None), usb("/dev/ttyUSB1", 0, None)];
    assert_eq!(detect_esp_ports(&None, &there), detect_esp_ports(&None, &back));
}

#[test]
fn a_board_keeps_its_id_at_another_port() {
    let mac = Some("D0:CF:13:E2:90:E8");
    let none = vec![];
    assert_eq!(device_id("/dev/ttyACM0", mac, &none), device_id("/dev/ttyACM2", mac, &none));
}

#[test]
fn a_lone_usb_port_is_the_last_resort() {
    let ports = vec![plain("/dev/ttyS0"), usb("/dev/mystery", 0x2222, None)];
    assert_eq!(detect_esp_ports(&None, &ports), vec!["/dev/mystery"]);
    let ports = vec![usb("/dev/a", 0x2222, None), usb("/dev/b", 0x2222, None)];
    assert!(detect_esp_ports(&None, &ports).is_empty());
    assert!(detect_esp_ports(&None, &vec![]).is_empty());
}

#[test]
fn ids_are_url_safe() {
    assert_eq!(sanitize_id("D0:CF:13:E2:90:E8"), "D0-CF-13-E2-90-E8");
    assert_eq!(sanitize_id("a/b c_d-e.f"), "a-b-c_d-e-f");
    assert_eq!(sanitize_id("grün"), "gr-n");
    assert_eq!(sanitize_id(&sanitize_id("x/y:z")), sanitize_id("x/y:z"));
}

#[test]
fn ids_prefer_aliases_then_macs_then_ports() {
    let aliases = pairs(&[("lab1", "/dev/ttyUSB0"), ("lab2", "AA:BB")]);
    assert_eq!(device_id("/dev/ttyUSB0", Some("AA:BB"), &aliases), "lab1");
    assert_eq!(device_id("/dev/ttyUSB1", Some("AA:BB"), &aliases), "lab2");
    assert_eq!(device_id("/dev/ttyUSB1", Some("CC:DD"), &aliases), "CC-DD");
    assert_eq!(device_id("/dev/ttyUSB1", None, &aliases), "ttyUSB1");
    assert_eq!(device_id("COM7", None, &vec![]), "COM7");
    assert_eq!(device_id("/dev/", None, &vec![]), "");
}

#[test]
fn scans_give_candidates_and_names() {
    let ports = vec![
        usb("/dev/ttyACM0", 0x303A, Some("D0:CF:13:E2:90:E8")),
        usb("/dev/ttyUSB0", 0x10C4, None),
        plain("/dev/ttyS4"),
    ];
    let aliases = pairs(&[("bench", "/dev/ttyS4"), ("gone", "/dev/ttyS5"), ("uart", "/dev/ttyUSB0")]);
    let (found, names) = scan_ports(&None, &ports, &aliases);
    let seen: Vec<(&str, &str, bool, Option<&str>)> = found
        .iter()
        .map(|c| (c.id.as_str(), c.path.as_str(), c.native_usb, c.mac.as_deref()))
        .collect();
    assert_eq!(
        seen,
        vec![
            ("D0-CF-13-E2-90-E8", "/dev/ttyACM0", true, Some("D0:CF:13:E2:90:E8")),
            ("uart", "/dev/ttyUSB0", false, None),
            ("bench", "/dev/ttyS4", false, None),
        ]
    );
    assert_eq!(names, vec!["/dev/ttyACM0", "/dev/ttyUSB0", "/dev/ttyS4"]);
}

fn candidate(id: &str, path: &str) -> PortCandidate {
    PortCandidate { id: id.to_string(), path: path.to_string(), native_usb: true, mac: None }
}

#[test]
fn new_devices_are_registered_and_started() {
    let mut registry = DeviceRegistry::new();
    let actions = run_supervisor(&mut registry, 115_200, &vec![candidate("a", "/dev/ttyACM0")]);
    assert_eq!(actions.len(), 1);
    assert!(matches!(&actions[0],
        SupervisorAction::Start { id, path } if id == "a" && path == "/dev/ttyACM0"));
    let dev = registry.get("a").unwrap();
    assert_eq!(dev.state.port_path, "/dev/ttyACM0");
    assert_eq!(dev.state.baud_rate, 115_200);
    assert!(dev.native_usb && !dev.state.serial_connected && !dev.state.firmware_verified);
    assert!(registry.get("b").is_none());
}

#[test]
fn a_device_at_its_port_is_left_alone() {
    let mut registry = DeviceRegistry::new();
    run_supervisor(&mut registry, 9600, &vec![candidate("a", "/dev/ttyACM0")]);
    let at = registry.position("a");
    registry.devices[at].state.serial_connected = true;
    let actions = run_supervisor(&mut registry, 9600, &vec![candidate("a", "/dev/ttyACM0")]);
    assert!(actions.is_empty());
    assert!(registry.get("a").unwrap().state.serial_connected);
}

#[test]
fn a_renumbered_device_is_followed() {
    let mut registry = DeviceRegistry::new();
    run_supervisor(&mut registry, 9600, &vec![candidate("a", "/dev/ttyACM0")]);
    let at = registry.position("a");
    registry.devices[at].state.serial_connected = true;
    let actions = run_supervisor(&mut registry, 9600, &vec![candidate("a", "/dev/ttyACM2")]);
    assert_eq!(actions.len(), 1);
    assert!(matches!(&actions[0],
        SupervisorAction::Follow { id, path } if id == "a" && path == "/dev/ttyACM2"));
    assert_eq!(registry.devices.len(), 1);
    assert_eq!(registry.get("a").unwrap().state.port_path, "/dev/ttyACM2");
    assert!(!registry.get("a").unwrap().state.serial_connected);
}

#[test]
fn a_missing_device_is_removed_by_the_third_scan() {
    let mut registry = DeviceRegistry::new();
    let both = vec![candidate("a", "/dev/ttyACM0"), candidate("b", "/dev/ttyACM1")];
    let rest = vec![candidate("b", "/dev/ttyACM1")];
    run_supervisor(&mut registry, 9600, &both);
    for n in 1..DEBOUNCE {
        assert!(run_supervisor(&mut registry, 9600, &rest).is_empty());
        assert_eq!(registry.get("a").unwrap().missing_scans, n);
    }
    let actions = run_supervisor(&mut registry, 9600, &rest);
    assert_eq!(actions.len(), 1);
    assert!(matches!(&actions[0], SupervisorAction::Stop { id } if id == "a"));
    assert!(registry.get("a").is_none());
    assert!(registry.get("b").is_some());
}

#[test]
fn a_device_that_comes_back_is_counted_anew() {
    let mut registry = DeviceRegistry::new();
    let there = vec![candidate("a", "/dev/ttyACM0")];
    run_supervisor(&mut registry, 9600, &there);
    run_supervisor(&mut registry, 9600, &vec![]);
    run_supervisor(&mut registry, 9600, &vec![]);
    assert!(run_supervisor(&mut registry, 9600, &there).is_empty());
    assert_eq!(registry.get("a").unwrap().missing_scans, 0);
    run_supervisor(&mut registry, 9600, &vec![]);
    run_supervisor(&mut registry, 9600, &vec![]);
    assert!(registry.get("a").is_some());
}

#[test]
fn the_registry_keeps_one_device_per_id() {
    let mut registry = DeviceRegistry::new();
    let handle = |id: &str, path: &str| {
        spawn_device(id.to_string(), path.to_string(), 9600, false, Some("m".to_string()))
    };
    registry.insert(handle("a", "1"));
    registry.insert(handle("b", "2"));
    registry.insert(handle("a", "3"));
    assert_eq!(registry.snapshot(), vec!["a", "b"]);
    assert_eq!(registry.get("a").unwrap().state.port_path, "3");
    assert_eq!(registry.get("b").unwrap().state.port_path, "2");
    let gone = registry.remove("a").unwrap();
    assert_eq!(gone.mac.as_deref(), Some("m"));
    assert!(registry.remove("a").is_none());
    assert_eq!(registry.snapshot(), vec!["b"]);
    assert_eq!(registry.position("zzz"), 1);
}
