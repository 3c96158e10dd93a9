use csi_webserver::models::{
    CollectionModeConfig, CsiConfig, CsiDeliveryConfig, DeviceInfo, IoTasksConfig, LogMode,
    LogModeConfig, OutputMode, OutputModeConfig, RateConfig, StartConfig, TrafficConfig,
    WifiConfig,
};
use csi_webserver::routes::config::{
    bad_request, cmd_sent, get_config, reset_config, reset_config_sent, send_cmd,
    set_collection_mode, set_collection_mode_sent, set_csi, set_csi_delivery,
    set_csi_delivery_sent, set_csi_sent, set_io_tasks, set_io_tasks_sent, set_log_mode,
    set_log_mode_sent, set_output_mode, set_rate, set_rate_sent, set_traffic, set_traffic_sent,
    set_wifi, set_wifi_sent, show_stats,
};
use csi_webserver::routes::control::{
    get_collection_status, reset_esp32, reset_outcome, start_collection, start_collection_sent,
    start_collection_sent_at, stop_collection, stop_collection_sent, ResetEvent, ResetStep,
    StartStep,
};
use csi_webserver::routes::devices::list_devices;
use csi_webserver::routes::info::{get_info, info_outcome, InfoOutcome, InfoResult};
use csi_webserver::routes::ws::{handle_socket, ws_handler, SocketEvent, SocketStep};
use csi_webserver::routes::Device;
use csi_webserver::serial::supervisor::spawn_device;
use csi_webserver::state::{AppState, DeviceHandle, DeviceRegistry, Reply, Step};

const DISCONNECTED: &str = "ESP32 disconnected; serial command unavailable";

fn info() -> DeviceInfo {
    DeviceInfo {
        banner_version: "0.5.0".to_string(),
        name: None,
        version: None,
        chip: Some("esp32c6".to_string()),
        mac: None,
        protocol: Some(2),
        features: vec!["statistics".to_string()],
    }
}

fn device() -> DeviceHandle {
    spawn_device("lab1".to_string(), "/dev/ttyUSB0".to_string(), 115_200, false, None)
}

fn ready() -> DeviceHandle {
    let mut d = device();
    d.state.serial_connected = true;
    d.state.verified(info());
    d
}

fn line(step: Step) -> String {
    match step {
        Step::Send(cmd) => cmd,
        other => panic!("{other:?}"),
    }
}

fn refusal(step: Step) -> (u16, String) {
    match step {
        Step::Reply(r) => answer(r, false),
        other => panic!("{other:?}"),
    }
}

fn answer(r: Reply, success: bool) -> (u16, String) {
    assert_eq!(r.body.success, success);
    (r.status, r.body.message)
}

fn failed() -> Result<(), String> {
    Err("channel closed".to_string())
}

#[test]
fn commands_need_a_link_and_verified_firmware() {
    let mut d = device();
    assert_eq!(
        refusal(send_cmd(&d.state, "x".to_string())),
        (503, DISCONNECTED.to_string())
    );
    d.state.serial_connected = true;
    let (status, message) = refusal(send_cmd(&d.state, "x".to_string()));
    assert_eq!(status, 412);
    assert_eq!(
        message,
        "Firmware not verified as esp-csi-cli-rs. Call GET /api/info to verify, or POST \
         /api/control/reset to power-cycle and re-check."
    );
    d.state.verified(info());
    assert_eq!(line(send_cmd(&d.state, "x y".to_string())), "x y");
    d.state.unverify();
    assert!(d.state.require_firmware().is_some());
}

#[test]
fn sent_commands_are_acknowledged() {
    let mut d = ready();
    assert_eq!(
        answer(cmd_sent(&d.state, "show-stats", &Ok(())), true),
        (200, "Sent: show-stats".to_string())
    );
    assert_eq!(
        answer(cmd_sent(&d.state, "x", &failed()), false),
        (500, "Failed to send command: channel closed".to_string())
    );
    d.state.serial_connected = false;
    assert_eq!(
        answer(cmd_sent(&d.state, "x", &failed()), false),
        (503, DISCONNECTED.to_string())
    );
    assert_eq!(line(show_stats(&ready().state)), "show-stats");
    assert_eq!(answer(bad_request("no".to_string()), false), (400, "no".to_string()));
}

fn wifi() -> WifiConfig {
    WifiConfig {
        mode: "station".to_string(),
        sta_ssid: Some("net".to_string()),
        sta_password: Some("hunter2".to_string()),
        channel: Some(6),
        peer_mac: Some(String::new()),
        ht40: Some("off".to_string()),
    }
}

#[test]
fn wifi_is_cached_without_its_password() {
    let mut s = ready().state;
    let cmd = line(set_wifi(&s, &wifi()));
    let r = set_wifi_sent(&mut s, wifi(), &cmd, Ok(()));
    assert_eq!(answer(r, true), (200, format!("Sent: {cmd}")));
    let c = get_config(&s);
    assert_eq!(c.wifi.mode.as_deref(), Some("station"));
    assert_eq!(c.wifi.sta_ssid.as_deref(), Some("net"));
    assert_eq!(c.wifi.channel, Some(6));
    assert_eq!(c.wifi.peer_mac.as_deref(), Some("auto"));
    assert_eq!(c.wifi.ht40.as_deref(), Some("none"));
    assert!(!format!("{c:?}").contains("hunter2"));

    let less = WifiConfig {
        mode: "sniffer".to_string(),
        sta_ssid: None,
        sta_password: None,
        channel: None,
        peer_mac: Some("aa:bb:cc:dd:ee:ff".to_string()),
        ht40: Some("above".to_string()),
    };
    set_wifi_sent(&mut s, less, "set-wifi", Ok(()));
    assert_eq!(s.config.wifi.mode.as_deref(), Some("sniffer"));
    assert_eq!(s.config.wifi.sta_ssid.as_deref(), Some("net"));
    assert_eq!(s.config.wifi.channel, Some(6));
    assert_eq!(s.config.wifi.peer_mac.as_deref(), Some("aa:bb:cc:dd:ee:ff"));
    assert_eq!(s.config.wifi.ht40.as_deref(), Some("above"));
}

#[test]
fn a_channel_that_is_left_out_is_the_default_of_the_chip() {
    let body = |mode: &str, channel: Option<u8>| WifiConfig {
        mode: mode.to_string(),
        sta_ssid: None,
        sta_password: None,
        channel,
        peer_mac: None,
        ht40: None,
    };
    let mut s = ready().state;
    let chips = [
        (Some("esp32c5"), 149),
        (Some("esp32c6"), 6),
        (Some("ESP32C6"), 6),
        (Some("esp32"), 1),
        (Some("esp32s3"), 1),
        (Some("weird"), 1),
        (None, 1),
    ];
    for (chip, channel) in chips {
        s.verified(DeviceInfo { chip: chip.map(str::to_string), ..info() });
        for mode in ["wifi-ap", "sniffer", "ht20-emitter", "ht40-emitter", "esp-now-central"] {
            assert_eq!(
                line(set_wifi(&s, &body(mode, None))),
                format!("set-wifi --mode={mode} --set-channel={channel}")
            );
        }
        assert_eq!(line(set_wifi(&s, &body("station", None))), "set-wifi --mode=station");
        assert_eq!(
            line(set_wifi(&s, &body("sniffer", Some(11)))),
            "set-wifi --mode=sniffer --set-channel=11"
        );
        assert_eq!(
            line(set_wifi(&s, &body("station", Some(36)))),
            "set-wifi --mode=station --set-channel=36"
        );
    }

    let before = s.config.wifi.channel;
    let cmd = line(set_wifi(&s, &body("sniffer", None)));
    set_wifi_sent(&mut s, body("sniffer", None), &cmd, Ok(()));
    assert_eq!(s.config.wifi.channel, before);
}

#[test]
fn bad_bodies_are_refused_before_anything_else() {
    let s = device().state;
    let mut body = wifi();
    body.mode = "ap".to_string();
    assert_eq!(refusal(set_wifi(&s, &body)).0, 400);
    assert_eq!(
        refusal(set_collection_mode(&s, &CollectionModeConfig { mode: "x".to_string() })).0,
        400
    );
    assert_eq!(refusal(set_io_tasks(&s, &IoTasksConfig { tx: None, rx: None })).0, 400);
    assert_eq!(
        refusal(set_csi_delivery(&s, &CsiDeliveryConfig { mode: None, logging: None })).0,
        400
    );
    assert_eq!(
        refusal(set_log_mode(&s, &None)),
        (
            400,
            "Invalid log mode. Use one of: text, array-list, serialized, esp-csi-tool".to_string()
        )
    );
    assert_eq!(refusal(set_wifi(&s, &wifi())).0, 503);
}

#[test]
fn failed_commands_leave_the_cache_alone() {
    let mut s = ready().state;
    let r = set_wifi_sent(&mut s, wifi(), "set-wifi", failed());
    assert_eq!(r.status, 500);
    assert_eq!(s.config.wifi.mode, None);
    reset_config_sent(&mut s, "reset-config", failed());
    assert_eq!(s.config.wifi.mode, None);
    set_traffic_sent(&mut s, TrafficConfig { frequency_hz: 5 }, "x", failed());
    assert_eq!(s.config.collection.traffic_hz, None);
}

#[test]
fn each_endpoint_caches_its_own() {
    let mut s = ready().state;
    assert_eq!(line(reset_config(&s)), "reset-config");
    reset_config_sent(&mut s, "reset-config", Ok(()));
    assert_eq!(s.config.collection.traffic_hz, Some(100));
    assert_eq!(s.config.csi_config.shift, Some(0));

    let body = TrafficConfig { frequency_hz: 5 };
    assert_eq!(line(set_traffic(&s, &body)), "set-traffic --frequency-hz=5");
    set_traffic_sent(&mut s, body, "x", Ok(()));
    assert_eq!(s.config.collection.traffic_hz, Some(5));

    let body = CollectionModeConfig { mode: "listener".to_string() };
    assert_eq!(line(set_collection_mode(&s, &body)), "set-collection-mode --mode=listener");
    set_collection_mode_sent(&mut s, body, "x", Ok(()));
    assert_eq!(s.config.collection.mode.as_deref(), Some("listener"));

    let body = RateConfig { rate: "54m".to_string() };
    assert_eq!(line(set_rate(&s, &body)), "set-rate --rate=54m");
    set_rate_sent(&mut s, body, "x", Ok(()));
    assert_eq!(s.config.collection.phy_rate.as_deref(), Some("54m"));

    let body = IoTasksConfig { tx: Some(false), rx: None };
    assert_eq!(line(set_io_tasks(&s, &body)), "set-io-tasks --tx=off");
    set_io_tasks_sent(&mut s, body, "x", Ok(()));
    assert_eq!(s.config.collection.io_tx_enabled, Some(false));
    assert_eq!(s.config.collection.io_rx_enabled, Some(true));

    let body = CsiDeliveryConfig { mode: Some("raw".to_string()), logging: None };
    assert_eq!(line(set_csi_delivery(&s, &body)), "set-csi-delivery --mode=raw");
    set_csi_delivery_sent(&mut s, body, "x", Ok(()));
    assert_eq!(s.config.csi_delivery_mode.as_deref(), Some("raw"));
    assert_eq!(s.config.csi_logging_enabled, None);

    let body = Some(LogModeConfig { mode: LogMode::EspCsiTool });
    assert_eq!(line(set_log_mode(&s, &body)), "set-log-mode --mode=esp-csi-tool");
    set_log_mode_sent(&mut s, body.unwrap(), "x", Ok(()));
    assert_eq!(s.config.log_mode.as_deref(), Some("esp-csi-tool"));
    assert_eq!(s.log_mode, LogMode::EspCsiTool);
}

fn csi() -> CsiConfig {
    CsiConfig {
        disable_lltf: Some(true),
        disable_htltf: Some(false),
        disable_stbc_htltf: None,
        disable_ltf_merge: None,
        disable_csi: None,
        disable_csi_legacy: None,
        disable_csi_ht20: None,
        disable_csi_ht40: None,
        disable_csi_su: None,
        disable_csi_mu: Some(true),
        disable_csi_dcm: None,
        disable_csi_beamformed: None,
        csi_he_stbc: Some(0),
        val_scale_cfg: None,
    }
}

#[test]
fn disabled_csi_features_are_shown_disabled_until_a_reset() {
    let mut s = ready().state;
    reset_config_sent(&mut s, "reset-config", Ok(()));
    let cmd = line(set_csi(&s, &csi()));
    assert_eq!(cmd, "set-csi --disable-lltf --disable-csi-mu --csi-he-stbc=0");
    set_csi_sent(&mut s, csi(), &cmd, Ok(()));
    let c = s.config.csi_config;
    assert_eq!((c.lltf_enabled, c.htltf_enabled), (Some(false), Some(true)));
    assert_eq!((c.acquire_csi_mu, c.acquire_csi_su), (Some(0), Some(1)));
    assert_eq!((c.csi_he_stbc, c.val_scale_cfg), (Some(0), Some(2)));
    let again = CsiConfig { disable_lltf: Some(false), disable_csi_mu: None, ..csi() };
    set_csi_sent(&mut s, again, "set-csi", Ok(()));
    assert_eq!(s.config.csi_config.lltf_enabled, Some(false));
    assert_eq!(s.config.csi_config.acquire_csi_mu, Some(0));
    reset_config_sent(&mut s, "reset-config", Ok(()));
    assert_eq!(s.config.csi_config.lltf_enabled, Some(true));
}

#[test]
fn output_modes_are_named_in_any_case() {
    let mut s = device().state;
    for (name, mode) in [
        ("Dump", OutputMode::Dump),
        ("BOTH", OutputMode::Both),
        ("stream", OutputMode::Stream),
    ] {
        let r = set_output_mode(&mut s, &OutputModeConfig { mode: name.to_string() });
        assert_eq!(answer(r, true), (200, format!("Output mode set to {name}")));
        assert_eq!(s.output_mode, mode);
    }
    let r = set_output_mode(&mut s, &OutputModeConfig { mode: "Disk".to_string() });
    assert_eq!(
        answer(r, false),
        (400, "Unknown output mode 'disk'; expected stream, dump, or both".to_string())
    );
    assert_eq!(s.output_mode, OutputMode::Stream);
}

#[test]
fn a_session_starts_and_stops() {
    let mut d = ready();
    let (prelude, command) = match start_collection(&mut d, &None) {
        StartStep::Send { prelude, command } => (prelude, command),
        other => panic!("{other:?}"),
    };
    assert_eq!(prelude, "set-log-mode --mode=serialized");
    assert_eq!(command, "start");
    assert!(d.state.collection_running);
    let r = start_collection_sent_at(&mut d, &command, Ok(()), "20260621_120000");
    assert_eq!(answer(r, true), (200, "Collection started: start".to_string()));
    assert_eq!(
        d.state.session_file.as_deref(),
        Some("csi_dump_lab1_20260621_120000.parquet")
    );

    match start_collection(&mut d, &Some(StartConfig { duration: Some(3) })) {
        StartStep::Reply(r) => {
            assert_eq!(answer(r, false), (503, "Collection already running".to_string()))
        }
        other => panic!("{other:?}"),
    }

    assert_eq!(line(stop_collection(&d)), "q");
    let r = stop_collection_sent(&mut d, failed());
    assert_eq!(
        answer(r, false),
        (500, "Failed to send stop: channel closed".to_string())
    );
    assert!(d.state.collection_running);
    let r = stop_collection_sent(&mut d, Ok(()));
    assert_eq!(answer(r, true), (200, "Collection stop requested".to_string()));
    assert!(!d.state.collection_running && d.state.session_file.is_none());
    match stop_collection(&d) {
        Step::Reply(r) => {
            assert_eq!(answer(r, true), (200, "Collection not running".to_string()))
        }
        other => panic!("{other:?}"),
    }
}

#[test]
fn a_failed_start_leaves_nothing_running() {
    let mut d = ready();
    start_collection(&mut d, &None);
    let r = start_collection_sent(&mut d, "start", failed());
    assert_eq!(
        answer(r, false),
        (500, "Failed to start collection: channel closed".to_string())
    );
    assert!(!d.state.collection_running && d.state.session_file.is_none());
    start_collection(&mut d, &None);
    d.state.serial_connected = false;
    let r = start_collection_sent(&mut d, "start", failed());
    assert_eq!(answer(r, false), (503, DISCONNECTED.to_string()));
}

#[test]
fn session_files_are_stamped_with_the_time() {
    let mut d = ready();
    start_collection(&mut d, &Some(StartConfig { duration: Some(120) }));
    let r = start_collection_sent(&mut d, "start --duration=120", Ok(()));
    assert_eq!(r.body.message, "Collection started: start --duration=120");
    let path = d.state.session_file.unwrap();
    let stamp = path
        .strip_prefix("csi_dump_lab1_")
        .and_then(|rest| rest.strip_suffix(".parquet"))
        .unwrap();
    assert_eq!(stamp.len(), 15);
    assert_eq!(stamp.as_bytes()[8], b'_');
    assert!(stamp.bytes().all(|b| b.is_ascii_digit() || b == b'_'));
}

#[test]
fn devices_have_files_of_their_own() {
    let mut a = ready();
    let mut b = ready();
    b.id = "lab2".to_string();
    for d in [&mut a, &mut b] {
        start_collection(d, &None);
        start_collection_sent_at(d, "start", Ok(()), "20260621_120000");
    }
    assert_ne!(a.state.session_file, b.state.session_file);
    assert_eq!(
        b.state.session_file.as_deref(),
        Some("csi_dump_lab2_20260621_120000.parquet")
    );
}

#[test]
fn starts_and_stops_are_gated() {
    let mut d = device();
    assert!(matches!(start_collection(&mut d, &None), StartStep::Reply(r) if r.status == 503));
    assert_eq!(refusal(stop_collection(&d)).0, 503);
    d.state.serial_connected = true;
    assert!(matches!(start_collection(&mut d, &None), StartStep::Reply(r) if r.status == 412));
    assert_eq!(refusal(stop_collection(&d)).0, 412);
    assert!(!d.state.collection_running);
}

#[test]
fn a_reset_ends_the_session_and_blocks_commands() {
    let mut d = ready();
    start_collection(&mut d, &None);
    start_collection_sent(&mut d, "start", Ok(()));
    match reset_esp32(&mut d) {
        ResetStep::PulseRts { path, baud_rate } => {
            assert_eq!((path.as_str(), baud_rate), ("/dev/ttyUSB0", 115_200))
        }
        other => panic!("{other:?}"),
    }
    assert!(!d.state.collection_running && d.state.session_file.is_none());
    assert!(d.state.device_info.is_none());
    assert_eq!(refusal(show_stats(&d.state)).0, 412);

    let mut d = ready();
    d.native_usb = true;
    assert!(matches!(reset_esp32(&mut d), ResetStep::Restart(c) if c == "restart"));
    d.state.serial_connected = false;
    assert!(matches!(reset_esp32(&mut d), ResetStep::Reply(r) if r.status == 503));
}

#[test]
fn resets_are_answered_by_what_became_of_them() {
    let ok = |e| {
        let (status, message) = answer(reset_outcome(e), true);
        assert_eq!(status, 200);
        message
    };
    assert_eq!(
        ok(ResetEvent::RestartQueued),
        "ESP32 restart issued via firmware (native USB-Serial-JTAG). The device will \
         re-enumerate and re-verify automatically; poll GET /api/devices or GET /api/info to \
         confirm."
    );
    assert_eq!(
        ok(ResetEvent::VerifyNotQueued),
        "ESP32 reset triggered via RTS, but post-reset re-verification could not be queued \
         (serial task is shutting down). Call GET /api/info to retry."
    );
    assert_eq!(
        ok(ResetEvent::Verified(info())),
        "ESP32 reset; firmware re-verified: esp-csi-cli-rs/0.5.0 (esp32c6)"
    );
    let mut unknown = info();
    unknown.chip = None;
    assert_eq!(
        ok(ResetEvent::Verified(unknown)),
        "ESP32 reset; firmware re-verified: esp-csi-cli-rs/0.5.0 (unknown chip)"
    );
    assert_eq!(
        ok(ResetEvent::NotVerified("why".to_string())),
        "ESP32 reset; firmware identity could NOT be re-verified (esp-csi-cli-rs may not be \
         flashed): why. Command endpoints will return 412 Precondition Failed until \
         verification succeeds."
    );
    assert_eq!(
        ok(ResetEvent::VerifyTimedOut),
        "ESP32 reset; post-reset re-verification timed out. Call GET /api/info to retry."
    );
    let bad = |e| {
        let (status, message) = answer(reset_outcome(e), false);
        assert_eq!(status, 500);
        message
    };
    assert_eq!(
        bad(ResetEvent::RestartFailed("x".to_string())),
        "Failed to queue restart command: x"
    );
    assert_eq!(
        bad(ResetEvent::OpenFailed("x".to_string())),
        "Failed to open serial port for reset: x"
    );
    assert_eq!(
        bad(ResetEvent::RtsFailed("x".to_string())),
        "RTS assert failed (adapter may not support it): x"
    );
}

fn info_failure(r: (u16, InfoResult)) -> (u16, String) {
    match r.1 {
        InfoResult::Failed(e) => {
            assert!(!e.success);
            (r.0, e.message)
        }
        other => panic!("{other:?}"),
    }
}

#[test]
fn info_is_refused_while_nobody_can_answer() {
    let mut d = device();
    assert_eq!(info_failure(get_info(&d).unwrap()), (503, DISCONNECTED.to_string()));
    d.state.serial_connected = true;
    assert!(get_info(&d).is_none());
    d.state.collection_running = true;
    assert_eq!(
        info_failure(get_info(&d).unwrap()),
        (503, "Collection is running; stop it first to query info".to_string())
    );
}

#[test]
fn info_failures_are_mapped_to_statuses() {
    let failed = |m: &str| info_failure(info_outcome(InfoOutcome::Answered(Err(m.to_string()))));
    assert_eq!(
        failed("info command timed out; firmware may not be esp-csi-cli-rs").0,
        504
    );
    assert_eq!(
        failed("info magic prefix 'ESP-CSI-CLI/' not seen — firmware is not esp-csi-cli-rs").0,
        504
    );
    assert_eq!(failed("END-INFO sentinel not seen in info block").0, 502);
    assert_eq!(failed("Serial read error: gone"), (502, "Serial read error: gone".to_string()));
    assert_eq!(failed("collection is running; CLI is locked until stop").0, 503);
    assert_eq!(
        info_failure(info_outcome(InfoOutcome::NotQueued)),
        (503, "Serial task is shutting down".to_string())
    );
    assert_eq!(
        info_failure(info_outcome(InfoOutcome::TimedOut)),
        (504, "info request timed out".to_string())
    );
    let (status, body) = info_outcome(InfoOutcome::Answered(Ok(info())));
    assert_eq!(status, 200);
    assert!(matches!(body, InfoResult::Info(i) if i.banner_version == "0.5.0"));
}

#[test]
fn devices_are_listed_and_resolved() {
    let mut registry = DeviceRegistry::new();
    registry.insert(ready());
    registry.insert(spawn_device(
        "b".to_string(),
        "/dev/ttyACM0".to_string(),
        9600,
        true,
        Some("AA:BB".to_string()),
    ));
    let rows = list_devices(&registry);
    assert_eq!(rows.len(), 2);
    assert_eq!(rows[0].id, "lab1");
    assert!(rows[0].serial_connected && rows[0].firmware_verified && !rows[0].collection_running);
    assert_eq!(rows[0].device_info.as_ref().unwrap().features, vec!["statistics"]);
    assert_eq!(rows[1].mac.as_deref(), Some("AA:BB"));
    assert_eq!((rows[1].port_path.as_str(), rows[1].baud_rate), ("/dev/ttyACM0", 9600));
    assert!(rows[1].device_info.is_none());

    let d = Device::from_request_parts(&registry, Some("b")).unwrap();
    assert_eq!(d.0.state.port_path, "/dev/ttyACM0");
    let e = Device::from_request_parts(&registry, Some("c")).unwrap_err();
    assert_eq!(answer(e, false), (404, "No device with id 'c'".to_string()));
    let e = Device::from_request_parts(&registry, None).unwrap_err();
    assert_eq!(answer(e, false), (400, "Missing device id in request path".to_string()));
}

#[test]
fn starting_one_device_leaves_the_others_alone() {
    let mut registry = DeviceRegistry::new();
    registry.insert(ready());
    let mut other = ready();
    other.id = "lab2".to_string();
    registry.insert(other);
    let at = registry.position("lab1");
    start_collection(&mut registry.devices[at], &None);
    assert!(registry.get("lab1").unwrap().state.collection_running);
    assert!(!registry.get("lab2").unwrap().state.collection_running);
}

#[test]
fn status_shows_the_device() {
    let d = ready();
    let (status, body) = get_collection_status(&d);
    assert_eq!(status, 200);
    assert!(body.serial_connected && !body.collection_running);
    assert_eq!(body.port_path, "/dev/ttyUSB0");
}

#[test]
fn sockets_are_refused_while_dumping_only() {
    let mut d = device();
    assert!(ws_handler(&d).is_none());
    d.state.output_mode = OutputMode::Both;
    assert!(ws_handler(&d).is_none());
    d.state.output_mode = OutputMode::Dump;
    assert_eq!(
        answer(ws_handler(&d).unwrap(), false),
        (
            403,
            "Server is in dump-only mode; WebSocket streaming is disabled".to_string()
        )
    );
}

#[test]
fn sockets_forward_frames_until_someone_leaves() {
    assert!(matches!(
        handle_socket(SocketEvent::Frame(vec![1, 2])),
        SocketStep::Send(data) if data == vec![1, 2]
    ));
    assert!(matches!(handle_socket(SocketEvent::Lagged(9)), SocketStep::Wait));
    assert!(matches!(handle_socket(SocketEvent::ClientMessage), SocketStep::Wait));
    assert!(matches!(handle_socket(SocketEvent::Shutdown), SocketStep::CloseAndStop));
    for e in [SocketEvent::StreamClosed, SocketEvent::SendFailed, SocketEvent::ClientClosed] {
        assert!(matches!(handle_socket(e), SocketStep::Stop));
    }
}

#[test]
fn a_fresh_state_knows_nothing() {
    let s = AppState::new("/dev/x".to_string(), 1);
    assert!(!s.serial_connected && !s.collection_running && !s.firmware_verified);
    assert_eq!(s.log_mode, LogMode::ArrayList);
    assert_eq!(s.output_mode, OutputMode::Stream);
    assert!(s.session_file.is_none() && s.device_info.is_none());
    assert_eq!(get_config(&s).wifi.mode, None);
}
