use csi_webserver::models::{
    quote_cli_arg, validate_peer_mac, CollectionModeConfig, CollectionStatusResponse, CsiConfig,
    CsiConfigSection, CsiDeliveryConfig, DeviceConfig, IoTasksConfig, LogMode, LogModeConfig,
    OutputMode, RateConfig, StartConfig, TrafficConfig, WifiConfig,
};

fn wifi(mode: &str, peer_mac: Option<&str>, ht40: Option<&str>) -> WifiConfig {
    WifiConfig {
        mode: mode.to_string(),
        sta_ssid: None,
        sta_password: None,
        channel: None,
        peer_mac: peer_mac.map(str::to_string),
        ht40: ht40.map(str::to_string),
    }
}

#[test]
fn wifi_emits_peer_mac_and_ht40() {
    let cmd = wifi("esp-now-central", Some("AA:BB:CC:DD:EE:FF"), Some("above"))
        .to_cli_command()
        .unwrap();
    assert_eq!(
        cmd,
        "set-wifi --mode=esp-now-central --peer-mac=AA:BB:CC:DD:EE:FF --ht40=above"
    );
}

#[test]
fn wifi_empty_peer_mac_clears_to_auto() {
    let cmd = wifi("esp-now-peripheral", Some(""), None)
        .to_cli_command()
        .unwrap();
    assert_eq!(cmd, "set-wifi --mode=esp-now-peripheral --peer-mac=");
}

#[test]
fn wifi_rejects_malformed_peer_mac() {
    assert!(wifi("esp-now-central", Some("not-a-mac"), None)
        .to_cli_command()
        .is_err());
}

#[test]
fn wifi_rejects_bad_ht40() {
    assert!(wifi("esp-now-central", None, Some("sideways"))
        .to_cli_command()
        .is_err());
}

#[test]
fn csi_delivery_accepts_raw() {
    let cmd = CsiDeliveryConfig {
        mode: Some("raw".to_string()),
        logging: None,
    }
    .to_cli_command()
    .unwrap();
    assert_eq!(cmd, "set-csi-delivery --mode=raw");
}

#[test]
fn csi_delivery_rejects_unknown_mode() {
    assert!(CsiDeliveryConfig {
        mode: Some("bogus".to_string()),
        logging: None,
    }
    .to_cli_command()
    .is_err());
}

#[test]
fn wifi_line_holds_every_option_in_order() {
    let body = WifiConfig {
        mode: "station".to_string(),
        sta_ssid: Some("My Network".to_string()),
        sta_password: Some("it's".to_string()),
        channel: Some(6),
        peer_mac: Some("aa-bb-cc-dd-ee-ff".to_string()),
        ht40: Some("off".to_string()),
    };
    assert_eq!(
        body.to_cli_command().unwrap(),
        "set-wifi --mode=station --sta-ssid='My Network' --sta-password=\"it's\" \
         --set-channel=6 --peer-mac=aa-bb-cc-dd-ee-ff --ht40=off"
    );
}

#[test]
fn every_wifi_mode_is_sent() {
    let modes = [
        "station",
        "wifi-ap",
        "sniffer",
        "ht20-emitter",
        "ht40-emitter",
        "esp-now-central",
        "esp-now-peripheral",
    ];
    for mode in modes {
        let cmd = wifi(mode, None, None).to_cli_command().unwrap();
        assert_eq!(cmd, format!("set-wifi --mode={mode}"));
    }
    for mode in ["he20-emitter", "he20-collector", "esp-now-fast-source", "Station", ""] {
        assert!(wifi(mode, None, None).to_cli_command().is_err());
    }
}

#[test]
fn wifi_faults_are_named() {
    assert_eq!(
        wifi("ap", None, None).to_cli_command().unwrap_err(),
        "Unknown wifi mode 'ap'; expected station, sniffer, esp-now-central, or esp-now-peripheral"
    );
    assert_eq!(
        wifi("sniffer", None, Some("sideways")).to_cli_command().unwrap_err(),
        "Invalid ht40 'sideways' (use above, below, none, or off)"
    );
    let mut body = wifi("sniffer", None, None);
    body.sta_ssid = Some("x".repeat(33));
    assert_eq!(
        body.to_cli_command().unwrap_err(),
        "sta_ssid is 33 bytes; firmware limit is 32 bytes"
    );
    let mut body = wifi("sniffer", None, None);
    body.sta_password = Some("ü".repeat(17));
    assert_eq!(
        body.to_cli_command().unwrap_err(),
        "sta_password is 34 bytes; firmware limit is 32 bytes"
    );
    let mut body = wifi("sniffer", None, None);
    body.sta_ssid = Some("ü".repeat(16));
    assert_eq!(
        body.to_cli_command().unwrap(),
        format!("set-wifi --mode=sniffer --sta-ssid='{}'", "ü".repeat(16))
    );
}

#[test]
fn the_first_wifi_fault_wins() {
    let body = WifiConfig {
        mode: "bogus".to_string(),
        sta_ssid: Some("x".repeat(33)),
        sta_password: None,
        channel: None,
        peer_mac: Some("zz".to_string()),
        ht40: Some("sideways".to_string()),
    };
    assert!(body.to_cli_command().unwrap_err().starts_with("Unknown wifi mode"));
    let body = WifiConfig { mode: "sniffer".to_string(), ..body };
    assert!(body.to_cli_command().unwrap_err().starts_with("sta_ssid is 33"));
    let body = WifiConfig { sta_ssid: None, ..body };
    assert!(body.to_cli_command().unwrap_err().starts_with("peer_mac must use"));
}

#[test]
fn arguments_are_quoted_by_what_they_hold() {
    assert_eq!(quote_cli_arg("plain").unwrap(), "'plain'");
    assert_eq!(quote_cli_arg("").unwrap(), "''");
    assert_eq!(quote_cli_arg("a 'b'").unwrap(), "\"a 'b'\"");
    assert_eq!(quote_cli_arg("say \"hi\"").unwrap(), "'say \"hi\"'");
    assert_eq!(
        quote_cli_arg("'\"").unwrap_err(),
        "value cannot contain both single and double quote characters"
    );
    assert_eq!(
        quote_cli_arg("a\nb").unwrap_err(),
        "value cannot contain newline characters"
    );
    assert_eq!(
        quote_cli_arg("a\rb").unwrap_err(),
        "value cannot contain newline characters"
    );
}

#[test]
fn peer_macs_are_six_octets() {
    assert!(validate_peer_mac("").is_ok());
    assert!(validate_peer_mac("00:1a:2B:ff:Fe:09").is_ok());
    assert!(validate_peer_mac("00-1a-2B-ff-Fe-09").is_ok());
    assert_eq!(
        validate_peer_mac("001a2bfffe09").unwrap_err(),
        "peer_mac must use ':' or '-' separators (aa:bb:cc:dd:ee:ff)"
    );
    for bad in [
        "00:1a:2b:ff:fe",
        "00:1a:2b:ff:fe:09:0a",
        "00:1a:2b:ff:fe:9",
        "00:1a:2b:ff:fe:0g",
        "00:1a:2b:ff:fe:ää",
        "00:1a-2b:ff:fe:09",
        ":::::",
    ] {
        assert_eq!(
            validate_peer_mac(bad).unwrap_err(),
            format!("Invalid peer_mac '{bad}' (use aa:bb:cc:dd:ee:ff)")
        );
    }
}

#[test]
fn accepted_wifi_lines_are_one_line() {
    let mut body = wifi("station", Some("aa:bb:cc:dd:ee:ff"), Some("below"));
    body.sta_ssid = Some("tab\tand space".to_string());
    body.sta_password = Some("p'w".to_string());
    let cmd = body.to_cli_command().unwrap();
    assert!(!cmd.contains('\n') && !cmd.contains('\r'));
    body.sta_password = Some("p\nw".to_string());
    assert!(body.to_cli_command().is_err());
    let mut body = wifi("station", Some("aa:bb:cc:dd:ee:f\n"), None);
    assert!(body.to_cli_command().is_err());
    body.peer_mac = None;
    assert!(body.to_cli_command().is_ok());
}

fn csi() -> CsiConfig {
    CsiConfig {
        disable_lltf: None,
        disable_htltf: None,
        disable_stbc_htltf: None,
        disable_ltf_merge: None,
        disable_csi: None,
        disable_csi_legacy: None,
        disable_csi_ht20: None,
        disable_csi_ht40: None,
        disable_csi_su: None,
        disable_csi_mu: None,
        disable_csi_dcm: None,
        disable_csi_beamformed: None,
        csi_he_stbc: None,
        val_scale_cfg: None,
    }
}

#[test]
fn csi_line_holds_the_flags_that_are_set() {
    assert_eq!(csi().to_cli_command(), "set-csi");
    let body = CsiConfig {
        disable_lltf: Some(true),
        disable_htltf: Some(false),
        disable_csi_beamformed: Some(true),
        csi_he_stbc: Some(2),
        val_scale_cfg: Some(0),
        ..csi()
    };
    assert_eq!(
        body.to_cli_command(),
        "set-csi --disable-lltf --disable-csi-beamformed --csi-he-stbc=2 --val-scale-cfg=0"
    );
    let body = CsiConfig {
        disable_lltf: Some(true),
        disable_htltf: Some(true),
        disable_stbc_htltf: Some(true),
        disable_ltf_merge: Some(true),
        disable_csi: Some(true),
        disable_csi_legacy: Some(true),
        disable_csi_ht20: Some(true),
        disable_csi_ht40: Some(true),
        disable_csi_su: Some(true),
        disable_csi_mu: Some(true),
        disable_csi_dcm: Some(true),
        disable_csi_beamformed: Some(true),
        csi_he_stbc: None,
        val_scale_cfg: Some(u32::MAX),
    };
    assert_eq!(
        body.to_cli_command(),
        "set-csi --disable-lltf --disable-htltf --disable-stbc-htltf --disable-ltf-merge \
         --disable-csi --disable-csi-legacy --disable-csi-ht20 --disable-csi-ht40 \
         --disable-csi-su --disable-csi-mu --disable-csi-dcm --disable-csi-beamformed \
         --val-scale-cfg=4294967295"
    );
}

#[test]
fn plain_lines() {
    assert_eq!(
        TrafficConfig { frequency_hz: 0 }.to_cli_command(),
        "set-traffic --frequency-hz=0"
    );
    assert_eq!(
        TrafficConfig { frequency_hz: u64::MAX }.to_cli_command(),
        "set-traffic --frequency-hz=18446744073709551615"
    );
    assert_eq!(StartConfig { duration: None }.to_cli_command(), "start");
    assert_eq!(StartConfig { duration: Some(120) }.to_cli_command(), "start --duration=120");
    assert_eq!(
        RateConfig { rate: "mcs0-lgi".to_string() }.to_cli_command(),
        "set-rate --rate=mcs0-lgi"
    );
    assert_eq!(
        CollectionModeConfig { mode: "listener".to_string() }.to_cli_command().unwrap(),
        "set-collection-mode --mode=listener"
    );
    assert_eq!(
        CollectionModeConfig { mode: "Listener".to_string() }.to_cli_command().unwrap_err(),
        "Unknown collection mode 'Listener'; expected collector or listener"
    );
}

#[test]
fn log_modes_have_names() {
    for (mode, name) in [
        (LogMode::Text, "text"),
        (LogMode::ArrayList, "array-list"),
        (LogMode::Serialized, "serialized"),
        (LogMode::EspCsiTool, "esp-csi-tool"),
    ] {
        assert_eq!(mode.as_cli_value(), name);
        assert_eq!(LogModeConfig { mode }.to_cli_command(), format!("set-log-mode --mode={name}"));
    }
    assert_eq!(LogMode::default(), LogMode::ArrayList);
    assert_eq!(OutputMode::default(), OutputMode::Stream);
}

#[test]
fn io_tasks_need_a_direction() {
    assert_eq!(
        IoTasksConfig { tx: None, rx: None }.to_cli_command().unwrap_err(),
        "at least one of tx or rx must be provided"
    );
    assert_eq!(
        IoTasksConfig { tx: Some(true), rx: Some(false) }.to_cli_command().unwrap(),
        "set-io-tasks --tx=on --rx=off"
    );
    assert_eq!(
        IoTasksConfig { tx: None, rx: Some(true) }.to_cli_command().unwrap(),
        "set-io-tasks --rx=on"
    );
}

#[test]
fn csi_delivery_needs_a_field() {
    assert_eq!(
        CsiDeliveryConfig { mode: None, logging: None }.to_cli_command().unwrap_err(),
        "at least one of mode or logging must be provided"
    );
    assert_eq!(
        CsiDeliveryConfig { mode: Some("async".to_string()), logging: Some(false) }
            .to_cli_command()
            .unwrap(),
        "set-csi-delivery --mode=async --logging=off"
    );
    assert_eq!(
        CsiDeliveryConfig { mode: None, logging: Some(true) }.to_cli_command().unwrap(),
        "set-csi-delivery --logging=on"
    );
    assert_eq!(
        CsiDeliveryConfig { mode: Some("bogus".to_string()), logging: None }
            .to_cli_command()
            .unwrap_err(),
        "Unknown csi-delivery mode 'bogus'; expected off, callback, async, or raw"
    );
}

#[test]
fn firmware_defaults_are_complete() {
    let c = DeviceConfig::firmware_defaults();
    assert_eq!(c.wifi.mode.as_deref(), Some("sniffer"));
    assert_eq!(c.wifi.channel, Some(1));
    assert_eq!(c.wifi.sta_ssid.as_deref(), Some(""));
    assert_eq!(c.wifi.peer_mac.as_deref(), Some("auto"));
    assert_eq!(c.wifi.ht40.as_deref(), Some("none"));
    assert_eq!(c.collection.mode.as_deref(), Some("collector"));
    assert_eq!(c.collection.traffic_hz, Some(100));
    assert_eq!(c.collection.phy_rate.as_deref(), Some("mcs0-lgi"));
    assert_eq!(c.collection.io_tx_enabled, Some(true));
    assert_eq!(c.csi_config.ltf_merge_enabled, Some(true));
    assert_eq!(c.csi_config.channel_filter_enabled, Some(false));
    assert_eq!(c.csi_config.shift, Some(0));
    assert_eq!(c.csi_config.acquire_csi_beamformed, Some(1));
    assert_eq!(c.csi_config.csi_he_stbc, Some(2));
    assert_eq!(c.csi_config.val_scale_cfg, Some(2));
    assert_eq!(c.log_mode, None);
    assert_eq!(c.csi_logging_enabled, None);

    let unset = DeviceConfig::default();
    assert_eq!(unset.wifi.mode, None);
    assert_eq!(unset.csi_config, CsiConfigSection::default());
    assert_eq!(unset.clone().collection.traffic_hz, None);
}

#[test]
fn status_is_taken_from_the_state() {
    let s = CollectionStatusResponse::from_state(true, false, "/dev/ttyUSB0".to_string());
    assert!(s.serial_connected);
    assert!(!s.collection_running);
    assert_eq!(s.port_path, "/dev/ttyUSB0");
}
